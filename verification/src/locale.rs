//! The locale resolver: the choice of a localized text among the variants
//! of a field, for an ordered list of preferred locales.

use vstd::prelude::*;
use crate::entry::{Field, FieldView, LocalizedView};
use crate::seqs::{first_match, lemma_first_match_is};
use crate::text::{find_char, index_or_len, str_eq};

verus! {

/// The candidates under which a preferred locale is looked up, most specific
/// first: the locale as given, the locale without its `@MODIFIER`, the
/// language with the modifier, the language alone. The language is what stands
/// before the first `_` of the part before the first `@`.
pub open spec fn locale_candidates(locale: Seq<char>) -> Seq<Seq<char>> {
    let at = index_or_len(locale, '@');
    let base = locale.take(at);
    let lang = base.take(index_or_len(base, '_'));
    if at < locale.len() {
        seq![locale, base, lang + locale.skip(at), lang]
    } else {
        seq![locale, base, lang]
    }
}

/// The position of the first variant for `locale`, or the number of variants.
pub open spec fn variant_index(variants: Seq<LocalizedView>, locale: Seq<char>) -> int {
    first_match(variants, |v: LocalizedView| v.locale == locale)
}

/// The text of the first candidate that has a variant.
pub open spec fn first_variant(variants: Seq<LocalizedView>, candidates: Seq<Seq<char>>) -> Option<
    Seq<char>,
>
    decreases candidates.len(),
{
    if candidates.len() == 0 {
        None
    } else {
        let i = variant_index(variants, candidates[0]);
        if 0 <= i < variants.len() {
            Some(variants[i].text)
        } else {
            first_variant(variants, candidates.drop_first())
        }
    }
}

/// The text of a field for an ordered list of preferred locales: the variant of
/// the first preference that has one under any of its candidates, else the
/// unlocalized value.
pub open spec fn resolve(field: FieldView, preferences: Seq<Seq<char>>) -> Seq<char>
    decreases preferences.len(),
{
    if preferences.len() == 0 {
        field.value
    } else {
        match first_variant(field.localized, locale_candidates(preferences[0])) {
            Some(text) => text,
            None => resolve(field, preferences.drop_first()),
        }
    }
}

impl Field {
    /// Finds the first variant for `locale`.
    pub fn variant(&self, locale: &str) -> (found: Option<usize>)
        ensures
            match found {
                Some(i) => i == variant_index(self.deep_view().localized, locale@) && i
                    < self.localized.len(),
                None => variant_index(self.deep_view().localized, locale@)
                    == self.localized.len(),
            },
    {
        let ghost variants = self.deep_view().localized;
        let ghost p = |v: LocalizedView| v.locale == locale@;
        let mut i: usize = 0;
        while i < self.localized.len()
            invariant
                i <= self.localized.len(),
                variants == self.localized.deep_view(),
                p == (|v: LocalizedView| v.locale == locale@),
                forall|j: int| 0 <= j < i ==> !p(#[trigger] variants[j]),
            decreases self.localized.len() - i,
        {
            if str_eq(self.localized[i].locale.as_str(), locale) {
                proof {
                    assert(p(variants[i as int]));
                    lemma_first_match_is(variants, p, i as int);
                }
                return Some(i);
            }
            i = i + 1;
        }
        proof {
            lemma_first_match_is(variants, p, i as int);
        }
        None
    }

    /// Chooses the variant for one preferred locale, trying its candidates from
    /// the most specific to the least.
    pub fn variant_for(&self, locale: &str) -> (text: Option<&str>)
        ensures
            text.deep_view() == first_variant(
                self.deep_view().localized,
                locale_candidates(locale@),
            ),
    {
        let ghost variants = self.deep_view().localized;
        let ghost cands = locale_candidates(locale@);
        let n: usize = locale.unicode_len();
        let at = find_char(locale, '@', 0);
        let base = locale.substring_char(0, at);
        let us = find_char(base, '_', 0);
        let lang = base.substring_char(0, us);
        proof {
            reveal_with_fuel(first_variant, 5);
            assert(locale@.skip(0) =~= locale@);
            assert(base@.skip(0) =~= base@);
            assert(base@ =~= locale@.take(at as int));
            assert(lang@ =~= base@.take(us as int));
            assert(cands.drop_first().drop_first()[0] == cands[2]);
            assert(cands.drop_first()[0] == cands[1]);
        }
        if let Some(i) = self.variant(locale) {
            return Some(self.localized[i].text.as_str());
        }
        if let Some(i) = self.variant(base) {
            return Some(self.localized[i].text.as_str());
        }
        if at < n {
            let modifier = locale.substring_char(at, n);
            let with_modifier = String::from_str(lang).concat(modifier);
            proof {
                assert(with_modifier@ =~= lang@ + locale@.skip(at as int));
                assert(cands.drop_first().drop_first().drop_first()[0] == cands[3]);
                assert(cands.drop_first().drop_first().drop_first().drop_first().len() == 0);
            }
            if let Some(i) = self.variant(with_modifier.as_str()) {
                return Some(self.localized[i].text.as_str());
            }
            if let Some(i) = self.variant(lang) {
                return Some(self.localized[i].text.as_str());
            }
            None
        } else {
            proof {
                assert(cands.drop_first().drop_first().drop_first().len() == 0);
            }
            if let Some(i) = self.variant(lang) {
                return Some(self.localized[i].text.as_str());
            }
            None
        }
    }

    /// The text of this field for an ordered list of preferred locales.
    pub fn resolve(&self, preferences: &[String]) -> (text: &str)
        ensures
            text@ == resolve(self.deep_view(), preferences.deep_view()),
    {
        let ghost prefs = preferences.deep_view();
        let mut i: usize = 0;
        proof {
            assert(prefs.skip(0) =~= prefs);
        }
        while i < preferences.len()
            invariant
                i <= preferences.len(),
                prefs == preferences.deep_view(),
                resolve(self.deep_view(), prefs) == resolve(self.deep_view(), prefs.skip(i as int)),
            decreases preferences.len() - i,
        {
            proof {
                assert(prefs.skip(i as int)[0] == preferences[i as int]@);
                assert(prefs.skip(i as int).drop_first() =~= prefs.skip(i + 1));
            }
            if let Some(text) = self.variant_for(preferences[i].as_str()) {
                return text;
            }
            i = i + 1;
        }
        self.value.as_str()
    }
}

/// Where the first preferred locale has a variant of its own, that variant is
/// the text, whatever the other preferences are.
pub proof fn lemma_resolve_exact(field: FieldView, preferences: Seq<Seq<char>>)
    requires
        preferences.len() > 0,
        0 <= variant_index(field.localized, preferences[0]) < field.localized.len(),
    ensures
        resolve(field, preferences) == field.localized[variant_index(
            field.localized,
            preferences[0],
        )].text,
{
    assert(locale_candidates(preferences[0])[0] == preferences[0]);
}

/// Where no candidate of any preferred locale has a variant, the text is the
/// unlocalized value.
pub proof fn lemma_resolve_default(field: FieldView, preferences: Seq<Seq<char>>)
    requires
        forall|i: int, k: int|
            0 <= i < preferences.len() && 0 <= k < locale_candidates(preferences[i]).len()
                ==> variant_index(
                field.localized,
                #[trigger] locale_candidates(preferences[i])[k],
            ) == field.localized.len(),
    ensures
        resolve(field, preferences) == field.value,
    decreases preferences.len(),
{
    if preferences.len() > 0 {
        let rest = preferences.drop_first();
        assert forall|i: int, k: int|
            0 <= i < rest.len() && 0 <= k < locale_candidates(rest[i]).len() implies variant_index(
            field.localized,
            #[trigger] locale_candidates(rest[i])[k],
        ) == field.localized.len() by {
            assert(rest[i] == preferences[i + 1]);
        }
        lemma_resolve_default(field, rest);
        lemma_no_variant(field.localized, locale_candidates(preferences[0]));
    }
}

/// Candidates of which none has a variant yield no text.
pub proof fn lemma_no_variant(variants: Seq<LocalizedView>, candidates: Seq<Seq<char>>)
    requires
        forall|k: int|
            0 <= k < candidates.len() ==> variant_index(variants, #[trigger] candidates[k])
                == variants.len(),
    ensures
        first_variant(variants, candidates) is None,
    decreases candidates.len(),
{
    if candidates.len() > 0 {
        let rest = candidates.drop_first();
        assert forall|k: int| 0 <= k < rest.len() implies variant_index(
            variants,
            #[trigger] rest[k],
        ) == variants.len() by {
            assert(rest[k] == candidates[k + 1]);
        }
        lemma_no_variant(variants, rest);
    }
}

} // verus!
