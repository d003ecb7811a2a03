//! Application descriptors: the decoded record, its groups and their fields.

use vstd::prelude::*;
use crate::error::Error;
use crate::locale::resolve;
use crate::seqs::{first_match, lemma_first_match_is};
use crate::text::{split, split_at_each, str_eq};

verus! {

#[verifier::external_type_specification]
#[verifier::external_body]
pub struct ExDecodeError(freedesktop_desktop_entry::DecodeError);

/// One localized variant of a field: `Key[locale]=text`.
#[derive(Debug, Clone, PartialEq, Eq)]
pub struct Localized {
    pub locale: String,
    pub text: String,
}

/// One field of a group with its localized variants.
#[derive(Debug, Clone, PartialEq, Eq)]
pub struct Field {
    pub key: String,
    pub value: String,
    pub localized: Vec<Localized>,
}

/// One group of a descriptor: the fields below a `[name]` header.
#[derive(Debug, Clone, PartialEq, Eq)]
pub struct Group {
    pub name: String,
    pub fields: Vec<Field>,
}

/// A decoded application descriptor.
#[derive(Debug, Clone, PartialEq, Eq)]
pub struct DesktopEntry {
    /// Identifier derived from the file's location.
    pub appid: String,
    /// Where the descriptor was loaded from.
    pub path: String,
    /// The groups of the descriptor.
    pub groups: Vec<Group>,
}

/// A localized variant as plain values.
pub struct LocalizedView {
    pub locale: Seq<char>,
    pub text: Seq<char>,
}

/// A field as plain values.
pub struct FieldView {
    pub key: Seq<char>,
    pub value: Seq<char>,
    pub localized: Seq<LocalizedView>,
}

/// A group as plain values.
pub struct GroupView {
    pub name: Seq<char>,
    pub fields: Seq<FieldView>,
}

/// A descriptor as plain values.
pub struct DesktopEntryView {
    pub appid: Seq<char>,
    pub path: Seq<char>,
    pub groups: Seq<GroupView>,
}

impl DeepView for Group {
    type V = GroupView;

    open spec fn deep_view(&self) -> GroupView {
        GroupView { name: self.name@, fields: self.fields.deep_view() }
    }
}

impl DeepView for Localized {
    type V = LocalizedView;

    open spec fn deep_view(&self) -> LocalizedView {
        LocalizedView { locale: self.locale@, text: self.text@ }
    }
}

impl DeepView for Field {
    type V = FieldView;

    open spec fn deep_view(&self) -> FieldView {
        FieldView {
            key: self.key@,
            value: self.value@,
            localized: self.localized.deep_view(),
        }
    }
}

impl View for DesktopEntry {
    type V = DesktopEntryView;

    open spec fn view(&self) -> DesktopEntryView {
        DesktopEntryView {
            appid: self.appid@,
            path: self.path@,
            groups: self.groups.deep_view(),
        }
    }
}

impl DeepView for DesktopEntry {
    type V = DesktopEntryView;

    open spec fn deep_view(&self) -> DesktopEntryView {
        self@
    }
}

impl GroupView {
    /// The position of the first field named `key`, or the number of fields.
    pub open spec fn field_index(self, key: Seq<char>) -> int {
        first_match(self.fields, |f: FieldView| f.key == key)
    }

    /// The field named `key`, if there is one.
    pub open spec fn field(self, key: Seq<char>) -> Option<FieldView> {
        let i = self.field_index(key);
        if 0 <= i < self.fields.len() {
            Some(self.fields[i])
        } else {
            None
        }
    }
}

impl DesktopEntryView {
    /// The position of the first group named `name`, or the number of groups.
    pub open spec fn group_index(self, name: Seq<char>) -> int {
        first_match(self.groups, |g: GroupView| g.name == name)
    }

    /// The group named `name`, if there is one.
    pub open spec fn group(self, name: Seq<char>) -> Option<GroupView> {
        let i = self.group_index(name);
        if 0 <= i < self.groups.len() {
            Some(self.groups[i])
        } else {
            None
        }
    }

    /// The field named `key` of the `[Desktop Entry]` group, if there is one.
    pub open spec fn field(self, key: Seq<char>) -> Option<FieldView> {
        match self.group("Desktop Entry"@) {
            Some(g) => g.field(key),
            None => None,
        }
    }

    /// The unlocalized value of the field named `key`.
    pub open spec fn value(self, key: Seq<char>) -> Option<Seq<char>> {
        match self.field(key) {
            Some(f) => Some(f.value),
            None => None,
        }
    }

    /// The declared capability tags, if the descriptor declares any.
    pub open spec fn mime_types(self) -> Option<Seq<Seq<char>>> {
        match self.value("MimeType"@) {
            Some(v) => Some(split_at_each(v, ';')),
            None => None,
        }
    }

    /// The text of the field named `key` for the preferred locales; nothing only
    /// where the field is absent.
    pub open spec fn localized(self, key: Seq<char>, preferences: Seq<Seq<char>>) -> Option<
        Seq<char>,
    > {
        match self.field(key) {
            Some(f) => Some(resolve(f, preferences)),
            None => None,
        }
    }
}

/// What decoding yields for the text `input` of a descriptor found at `path`:
/// the identifier derived from `path` and the groups with their fields, each
/// in the order of their names, or nothing where the text or the path is not
/// acceptable.
pub uninterp spec fn decoded(path: Seq<char>, input: Seq<char>) -> Option<DesktopEntryView>;

/// Decodes a descriptor text.
///
/// Trusted: `freedesktop_desktop_entry::DesktopEntry::from_str`, called without
/// a locale filter so that every localized variant is kept. The decoder reads
/// nothing but its two arguments, so its outcome is named by `decoded`; it
/// stores the path it was given. The body copies the identifier, the path and
/// the groups, field by field.
#[verifier::external_body]
fn decode_text(path: &str, input: &str) -> (r: Result<
    DesktopEntry,
    freedesktop_desktop_entry::DecodeError,
>)
    ensures
        r is Ok <==> decoded(path@, input@) is Some,
        r matches Ok(de) ==> Some(de@) == decoded(path@, input@) && de.path@ == path@,
{
    let de = freedesktop_desktop_entry::DesktopEntry::from_str(path, input, None::<&[&str]>)?;
    let groups = de.groups.0.iter().map(|(n, g)| Group {
        name: n.clone(),
        fields: g.0.iter().map(|(k, (v, m))| Field {
            key: k.clone(),
            value: v.clone(),
            localized: m.iter().map(|(l, t)| Localized { locale: l.clone(), text: t.clone() }).collect(),
        }).collect(),
    }).collect();
    Ok(DesktopEntry { appid: de.appid, path: de.path.to_string_lossy().into_owned(), groups })
}

impl Group {
    /// Finds the first field named `key`.
    pub fn field(&self, key: &str) -> (found: Option<&Field>)
        ensures
            found.deep_view() == self.deep_view().field(key@),
    {
        let ghost fields = self.deep_view().fields;
        let ghost p = |f: FieldView| f.key == key@;
        let mut i: usize = 0;
        while i < self.fields.len()
            invariant
                i <= self.fields.len(),
                fields == self.fields.deep_view(),
                p == (|f: FieldView| f.key == key@),
                forall|j: int| 0 <= j < i ==> !p(#[trigger] fields[j]),
            decreases self.fields.len() - i,
        {
            if str_eq(self.fields[i].key.as_str(), key) {
                proof {
                    assert(p(fields[i as int]));
                    lemma_first_match_is(fields, p, i as int);
                }
                return Some(&self.fields[i]);
            }
            i = i + 1;
        }
        proof {
            lemma_first_match_is(fields, p, i as int);
        }
        None
    }
}

impl DesktopEntry {
    /// Decodes the text `input` of the descriptor found at `path`.
    pub fn from_str(path: &str, input: &str) -> (r: Result<DesktopEntry, Error>)
        ensures
            match r {
                Ok(de) => Some(de@) == decoded(path@, input@) && de.path@ == path@,
                Err(e) => e == Error::DesktopEntryDecode && decoded(path@, input@) is None,
            },
    {
        match decode_text(path, input) {
            Ok(de) => Ok(de),
            Err(_) => Err(Error::DesktopEntryDecode),
        }
    }

    /// Finds the first group named `name`.
    pub fn group(&self, name: &str) -> (found: Option<&Group>)
        ensures
            found.deep_view() == self@.group(name@),
    {
        let ghost groups = self@.groups;
        let ghost p = |g: GroupView| g.name == name@;
        let mut i: usize = 0;
        while i < self.groups.len()
            invariant
                i <= self.groups.len(),
                groups == self.groups.deep_view(),
                p == (|g: GroupView| g.name == name@),
                forall|j: int| 0 <= j < i ==> !p(#[trigger] groups[j]),
            decreases self.groups.len() - i,
        {
            if str_eq(self.groups[i].name.as_str(), name) {
                proof {
                    assert(p(groups[i as int]));
                    lemma_first_match_is(groups, p, i as int);
                }
                return Some(&self.groups[i]);
            }
            i = i + 1;
        }
        proof {
            lemma_first_match_is(groups, p, i as int);
        }
        None
    }

    /// Finds the first field named `key` in the `[Desktop Entry]` group.
    pub fn field(&self, key: &str) -> (found: Option<&Field>)
        ensures
            found.deep_view() == self@.field(key@),
    {
        match self.group("Desktop Entry") {
            Some(g) => g.field(key),
            None => None,
        }
    }

    /// The unlocalized value of the field named `key`.
    pub fn desktop_entry(&self, key: &str) -> (value: Option<&str>)
        ensures
            value.deep_view() == self@.value(key@),
    {
        match self.field(key) {
            Some(f) => Some(f.value.as_str()),
            None => None,
        }
    }

    /// The text of the field named `key` for the preferred locales.
    pub fn desktop_entry_localized(&self, key: &str, locales: &[String]) -> (text: Option<&str>)
        ensures
            text.deep_view() == self@.localized(key@, locales.deep_view()),
    {
        match self.field(key) {
            Some(f) => Some(f.resolve(locales)),
            None => None,
        }
    }

    /// The display name for the preferred locales.
    pub fn name(&self, locales: &[String]) -> (text: Option<&str>)
        ensures
            text.deep_view() == self@.localized("Name"@, locales.deep_view()),
    {
        self.desktop_entry_localized("Name", locales)
    }

    /// The description for the preferred locales.
    pub fn comment(&self, locales: &[String]) -> (text: Option<&str>)
        ensures
            text.deep_view() == self@.localized("Comment"@, locales.deep_view()),
    {
        self.desktop_entry_localized("Comment", locales)
    }

    /// The icon key, which is never resolved here.
    pub fn icon(&self) -> (value: Option<&str>)
        ensures
            value.deep_view() == self@.value("Icon"@),
    {
        self.desktop_entry("Icon")
    }

    /// The raw launch template.
    pub fn exec(&self) -> (value: Option<&str>)
        ensures
            value.deep_view() == self@.value("Exec"@),
    {
        self.desktop_entry("Exec")
    }

    /// The declared capability tags: the pieces of the `MimeType` field between
    /// semicolons.
    pub fn mime_type(&self) -> (tags: Option<Vec<String>>)
        ensures
            tags.deep_view() == self@.mime_types(),
    {
        match self.desktop_entry("MimeType") {
            Some(v) => Some(split(v, ';')),
            None => None,
        }
    }
}

/// A text is found for every preference list exactly where the field exists.
pub proof fn lemma_localized_iff_field(
    de: DesktopEntryView,
    key: Seq<char>,
    preferences: Seq<Seq<char>>,
)
    ensures
        de.localized(key, preferences) is Some <==> de.field(key) is Some,
        de.localized(key, preferences) is Some <==> de.value(key) is Some,
{
}

} // verus!
