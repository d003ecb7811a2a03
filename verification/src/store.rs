//! The descriptor store: decoding the descriptor files of the search
//! directories into records, the first file of each identifier winning.

use vstd::prelude::*;
use crate::entry::{decoded, DesktopEntry, DesktopEntryView};
use crate::text::str_eq;

verus! {

/// The text of a descriptor file and the place it was read from.
#[derive(Debug, Clone, PartialEq, Eq)]
pub struct SourceFile {
    pub path: String,
    pub contents: String,
}

impl DeepView for SourceFile {
    type V = (Seq<char>, Seq<char>);

    open spec fn deep_view(&self) -> (Seq<char>, Seq<char>) {
        (self.path@, self.contents@)
    }
}

/// Whether one of `entries` has the identifier `id`.
pub open spec fn has_id(entries: Seq<DesktopEntryView>, id: Seq<char>) -> bool {
    exists|i: int| 0 <= i < entries.len() && (#[trigger] entries[i]).appid == id
}

/// Whether no two of `entries` share an identifier.
pub open spec fn distinct_ids(entries: Seq<DesktopEntryView>) -> bool {
    forall|i: int, j: int|
        0 <= i < j < entries.len() ==> (#[trigger] entries[i]).appid != (#[trigger] entries[j]).appid
}

/// The descriptors that a list of files yields: one for each file that
/// decodes, in the order of the files, except that a file whose identifier an
/// earlier file already has is passed over.
pub open spec fn collected(files: Seq<(Seq<char>, Seq<char>)>) -> Seq<DesktopEntryView>
    decreases files.len(),
{
    if files.len() == 0 {
        Seq::empty()
    } else {
        let earlier = collected(files.drop_last());
        match decoded(files.last().0, files.last().1) {
            Some(de) => if has_id(earlier, de.appid) {
                earlier
            } else {
                earlier.push(de)
            },
            None => earlier,
        }
    }
}

/// Decodes `files` in order into descriptors, passing over a file that does
/// not decode and one whose identifier an earlier file already has.
pub fn collect_entries(files: &[SourceFile]) -> (entries: Vec<DesktopEntry>)
    ensures
        entries.deep_view() == collected(files.deep_view()),
        distinct_ids(entries.deep_view()),
{
    let mut entries: Vec<DesktopEntry> = Vec::new();
    let mut i: usize = 0;
    proof {
        assert(entries.deep_view() =~= collected(files.deep_view().take(0)));
    }
    while i < files.len()
        invariant
            i <= files.len(),
            entries.deep_view() == collected(files.deep_view().take(i as int)),
            distinct_ids(entries.deep_view()),
        decreases files.len() - i,
    {
        let ghost earlier = entries.deep_view();
        proof {
            assert(files.deep_view().take(i + 1).drop_last() =~= files.deep_view().take(i as int));
            assert(files.deep_view().take(i + 1).last() == files[i as int].deep_view());
        }
        match DesktopEntry::from_str(files[i].path.as_str(), files[i].contents.as_str()) {
            Ok(de) => {
                if !contains_id(&entries, de.appid.as_str()) {
                    entries.push(de);
                    proof {
                        assert(entries.deep_view() =~= earlier.push(de@));
                    }
                }
            },
            Err(_) => {},
        }
        i = i + 1;
    }
    proof {
        assert(files.deep_view().take(i as int) =~= files.deep_view());
    }
    entries
}

/// Tells whether one of `entries` has the identifier `id`.
pub fn contains_id(entries: &Vec<DesktopEntry>, id: &str) -> (found: bool)
    ensures
        found == has_id(entries.deep_view(), id@),
{
    let mut i: usize = 0;
    while i < entries.len()
        invariant
            i <= entries.len(),
            forall|j: int| 0 <= j < i ==> (#[trigger] entries.deep_view()[j]).appid != id@,
        decreases entries.len() - i,
    {
        if str_eq(entries[i].appid.as_str(), id) {
            proof {
                assert(entries.deep_view()[i as int].appid == id@);
            }
            return true;
        }
        i = i + 1;
    }
    false
}

/// Whether one of `files` decodes to `de`.
pub open spec fn decodes_from(files: Seq<(Seq<char>, Seq<char>)>, de: DesktopEntryView) -> bool {
    exists|i: int|
        0 <= i < files.len() && decoded((#[trigger] files[i]).0, files[i].1) == Some(de)
}

/// The descriptors collected from any list of files have distinct
/// identifiers, each is what one of the files decodes to, and every file that
/// decodes has its identifier among them.
pub proof fn lemma_collected(files: Seq<(Seq<char>, Seq<char>)>)
    ensures
        distinct_ids(collected(files)),
        forall|k: int|
            0 <= k < collected(files).len() ==> decodes_from(files, #[trigger] collected(files)[k]),
        forall|i: int|
            0 <= i < files.len() ==> (#[trigger] decoded(files[i].0, files[i].1) matches Some(de)
                ==> has_id(collected(files), de.appid)),
    decreases files.len(),
{
    if files.len() > 0 {
        let rest = files.drop_last();
        let earlier = collected(rest);
        let all = collected(files);
        let n = files.len() - 1;
        lemma_collected(rest);
        assert forall|k: int| 0 <= k < all.len() implies decodes_from(files, #[trigger] all[k]) by {
            if k < earlier.len() {
                assert(decodes_from(rest, earlier[k]));
                let i = choose|i: int|
                    0 <= i < rest.len() && decoded((#[trigger] rest[i]).0, rest[i].1) == Some(
                        earlier[k],
                    );
                assert(files[i] == rest[i]);
            } else {
                assert(decoded(files[n].0, files[n].1) == Some(all[k]));
            }
        }
        assert forall|i: int| 0 <= i < files.len() implies (#[trigger] decoded(
            files[i].0,
            files[i].1,
        ) matches Some(de) ==> has_id(all, de.appid)) by {
            if let Some(de) = decoded(files[i].0, files[i].1) {
                if i < n {
                    assert(files[i] == rest[i]);
                    assert(has_id(earlier, de.appid));
                    let k = choose|k: int| 0 <= k < earlier.len() && (#[trigger] earlier[k]).appid == de.appid;
                    assert(all[k].appid == de.appid);
                } else if has_id(earlier, de.appid) {
                } else {
                    assert(all[all.len() - 1].appid == de.appid);
                }
            }
        }
    }
}

/// Whether some file of `files` decodes to `first` and a later one to `second`.
pub open spec fn decode_in_order(
    files: Seq<(Seq<char>, Seq<char>)>,
    first: DesktopEntryView,
    second: DesktopEntryView,
) -> bool {
    exists|i: int, j: int|
        0 <= i < j < files.len() && decoded((#[trigger] files[i]).0, files[i].1) == Some(first)
            && decoded((#[trigger] files[j]).0, files[j].1) == Some(second)
}

/// The collected descriptors stand in the order of the files they come from.
pub proof fn lemma_collected_in_order(files: Seq<(Seq<char>, Seq<char>)>)
    ensures
        forall|a: int, b: int|
            0 <= a < b < collected(files).len() ==> #[trigger] decode_in_order(
                files,
                collected(files)[a],
                collected(files)[b],
            ),
    decreases files.len(),
{
    if files.len() > 0 {
        let rest = files.drop_last();
        let earlier = collected(rest);
        let all = collected(files);
        let n = files.len() - 1;
        lemma_collected_in_order(rest);
        lemma_collected(rest);
        assert forall|a: int, b: int| 0 <= a < b < all.len() implies #[trigger] decode_in_order(
            files,
            all[a],
            all[b],
        ) by {
            if b < earlier.len() {
                assert(decode_in_order(rest, earlier[a], earlier[b]));
                let (i, j) = choose|i: int, j: int|
                    0 <= i < j < rest.len() && decoded((#[trigger] rest[i]).0, rest[i].1) == Some(
                        earlier[a],
                    ) && decoded((#[trigger] rest[j]).0, rest[j].1) == Some(earlier[b]);
                assert(files[i] == rest[i] && files[j] == rest[j]);
            } else {
                assert(decodes_from(rest, earlier[a]));
                let i = choose|i: int|
                    0 <= i < rest.len() && decoded((#[trigger] rest[i]).0, rest[i].1) == Some(
                        earlier[a],
                    );
                assert(files[i] == rest[i]);
                assert(decoded(files[n].0, files[n].1) == Some(all[b]));
            }
        }
    }
}

/// Of the files that decode to one identifier the first wins: where no
/// earlier file decodes to the identifier of file `i`, the descriptor of file
/// `i` is among those collected.
pub proof fn lemma_first_wins(files: Seq<(Seq<char>, Seq<char>)>, i: int)
    requires
        0 <= i < files.len(),
        decoded(files[i].0, files[i].1) is Some,
        forall|j: int|
            0 <= j < i ==> (#[trigger] decoded(files[j].0, files[j].1) matches Some(de)
                ==> de.appid != decoded(files[i].0, files[i].1)->0.appid),
    ensures
        collected(files).contains(decoded(files[i].0, files[i].1)->0),
    decreases files.len(),
{
    let rest = files.drop_last();
    let earlier = collected(rest);
    let all = collected(files);
    let n = files.len() - 1;
    let de = decoded(files[i].0, files[i].1)->0;
    if i < n {
        assert(rest[i] == files[i]);
        assert forall|j: int| 0 <= j < i implies (#[trigger] decoded(
            rest[j].0,
            rest[j].1,
        ) matches Some(d) ==> d.appid != de.appid) by {
            assert(rest[j] == files[j]);
            assert(decoded(files[j].0, files[j].1) == decoded(rest[j].0, rest[j].1));
        }
        lemma_first_wins(rest, i);
        let k = choose|k: int| 0 <= k < earlier.len() && earlier[k] == de;
        assert(all[k] == de);
    } else {
        lemma_collected(rest);
        if has_id(earlier, de.appid) {
            let k = choose|k: int| 0 <= k < earlier.len() && (#[trigger] earlier[k]).appid == de.appid;
            assert(decodes_from(rest, earlier[k]));
            let j = choose|j: int|
                0 <= j < rest.len() && decoded((#[trigger] rest[j]).0, rest[j].1) == Some(
                    earlier[k],
                );
            assert(rest[j] == files[j]);
            assert(decoded(files[j].0, files[j].1) == Some(earlier[k]));
            assert(false);
        }
        assert(all[all.len() - 1] == de);
    }
}

} // verus!
