//! Labels short enough for a button: the first user-perceived characters of a
//! text, with an ellipsis where some were left out.

use vstd::prelude::*;

verus! {

/// The extended grapheme clusters of `s`, in order, as Unicode Standard
/// Annex 29 bounds them.
pub uninterp spec fn grapheme_clusters(s: Seq<char>) -> Seq<Seq<char>>;

/// Cuts a text into its extended grapheme clusters.
///
/// Trusted: `unicode_segmentation::UnicodeSegmentation::graphemes` with
/// `is_extended` set, collected into a vector. The clusters depend on the text
/// alone and are named by `grapheme_clusters`.
#[verifier::external_body]
fn graphemes<'a>(s: &'a str) -> (clusters: Vec<&'a str>)
    ensures
        clusters.deep_view() == grapheme_clusters(s@),
{
    unicode_segmentation::UnicodeSegmentation::graphemes(s, true).collect()
}

/// The texts of `parts` one after the other.
pub open spec fn concat_all(parts: Seq<Seq<char>>) -> Seq<char>
    decreases parts.len(),
{
    if parts.len() == 0 {
        Seq::empty()
    } else {
        concat_all(parts.drop_last()) + parts.last()
    }
}

/// The label for a text `s` that falls into `clusters`: `s` itself where it
/// has at most `max` of them, else the first `max` followed by three dots.
pub open spec fn truncated(s: Seq<char>, clusters: Seq<Seq<char>>, max: nat) -> Seq<char> {
    if clusters.len() <= max {
        s
    } else {
        concat_all(clusters.take(max as int)) + "..."@
    }
}

/// Shortens `s`, which falls into `clusters`, to at most `max` of them.
pub fn truncate_clusters(s: &str, clusters: &[&str], max: usize) -> (label: String)
    ensures
        label@ == truncated(s@, clusters.deep_view(), max as nat),
{
    if clusters.len() <= max {
        return s.to_owned();
    }
    let mut label = String::new();
    let mut i: usize = 0;
    proof {
        assert(clusters.deep_view().take(0) =~= Seq::<Seq<char>>::empty());
    }
    while i < max
        invariant
            i <= max < clusters.len(),
            label@ == concat_all(clusters.deep_view().take(i as int)),
        decreases max - i,
    {
        proof {
            assert(clusters.deep_view().take(i + 1).drop_last() =~= clusters.deep_view().take(
                i as int,
            ));
            assert(clusters.deep_view().take(i + 1).last() == clusters[i as int]@);
        }
        label.append(clusters[i]);
        i = i + 1;
    }
    label.append("...");
    label
}

/// Shortens `s` to at most `max` user-perceived characters, marking with
/// three dots that some were left out.
pub fn truncate_with_ellipsis(s: &str, max: usize) -> (label: String)
    ensures
        label@ == truncated(s@, grapheme_clusters(s@), max as nat),
{
    let clusters = graphemes(s);
    truncate_clusters(s, clusters.as_slice(), max)
}

} // verus!
