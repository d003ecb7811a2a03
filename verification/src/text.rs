//! Small operations on text that the descriptor format needs: searching,
//! splitting at a separator and trimming.

use vstd::prelude::*;
use crate::seqs::{first_match, lemma_first_match_is};

verus! {

/// The position of the first `c` in `s`, or the length of `s` if there is none.
pub open spec fn index_or_len(s: Seq<char>, c: char) -> int
    decreases s.len(),
{
    if s.len() == 0 || s[0] == c {
        0
    } else {
        1 + index_or_len(s.drop_first(), c)
    }
}

/// `index_or_len` is the one position before which no `c` stands and at which
/// one does, unless it is the end.
pub proof fn lemma_index_or_len(s: Seq<char>, c: char, k: int)
    requires
        0 <= k <= s.len(),
        forall|j: int| 0 <= j < k ==> s[j] != c,
        k < s.len() ==> s[k] == c,
    ensures
        index_or_len(s, c) == k,
    decreases s.len(),
{
    if s.len() == 0 || s[0] == c {
    } else {
        let t = s.drop_first();
        assert forall|j: int| 0 <= j < k - 1 implies t[j] != c by {
            assert(t[j] == s[j + 1]);
        }
        lemma_index_or_len(t, c, k - 1);
    }
}

/// The pieces of `s` between occurrences of `sep`, empty pieces included.
/// A text without `sep` is one piece, so the result is never empty.
pub open spec fn split_at_each(s: Seq<char>, sep: char) -> Seq<Seq<char>>
    decreases s.len(),
{
    let k = index_or_len(s, sep);
    if 0 <= k < s.len() {
        seq![s.take(k)] + split_at_each(s.skip(k + 1), sep)
    } else {
        seq![s]
    }
}

/// Whether two texts hold the same characters.
///
/// Trusted: `str`'s own `==`, which compares the two slices character by character.
#[verifier::external_body]
pub(crate) fn str_eq(a: &str, b: &str) -> (same: bool)
    ensures
        same == (a@ == b@),
{
    a == b
}

/// Finds the first `c` at or after position `from`, counted in characters;
/// the result is the length of `s` where there is none.
pub fn find_char(s: &str, c: char, from: usize) -> (k: usize)
    ensures
        k <= s@.len(),
        from <= s@.len() ==> from <= k == from + index_or_len(s@.skip(from as int), c),
        from > s@.len() ==> k == s@.len(),
{
    let n: usize = s.unicode_len();
    if from > n {
        return n;
    }
    let mut k: usize = from;
    while k < n && s.get_char(k) != c
        invariant
            n == s@.len(),
            from <= k <= n,
            forall|j: int| from <= j < k ==> s@[j] != c,
        decreases n - k,
    {
        k = k + 1;
    }
    proof {
        lemma_index_or_len(s@.skip(from as int), c, k - from);
    }
    k
}

/// Splits `s` at each `sep`.
pub fn split(s: &str, sep: char) -> (parts: Vec<String>)
    ensures
        parts.deep_view() == split_at_each(s@, sep),
{
    let n: usize = s.unicode_len();
    let mut parts: Vec<String> = Vec::new();
    let mut start: usize = 0;
    proof {
        assert(s@.skip(0) =~= s@);
        assert(parts.deep_view() + split_at_each(s@, sep) =~= split_at_each(s@, sep));
    }
    loop
        invariant
            n == s@.len(),
            start <= n,
            split_at_each(s@, sep) == parts.deep_view() + split_at_each(
                s@.skip(start as int),
                sep,
            ),
        decreases n - start,
    {
        let k = find_char(s, sep, start);
        let piece = s.substring_char(start, k);
        let ghost rest = s@.skip(start as int);
        let ghost before = parts.deep_view();
        parts.push(piece.to_owned());
        proof {
            assert(rest.take(k - start) =~= s@.subrange(start as int, k as int));
            assert(parts.deep_view() =~= before.push(rest.take(k - start)));
        }
        if k >= n {
            proof {
                assert(rest.take(k - start) =~= rest);
                assert(split_at_each(rest, sep) =~= seq![rest]);
                assert(before + seq![rest] =~= parts.deep_view());
            }
            return parts;
        }
        proof {
            assert(rest.skip(k - start + 1) =~= s@.skip(k + 1));
            assert(split_at_each(rest, sep) == seq![rest.take(k - start)] + split_at_each(
                rest.skip(k - start + 1),
                sep,
            ));
            assert(before + (seq![rest.take(k - start)] + split_at_each(s@.skip(k + 1), sep))
                =~= before.push(rest.take(k - start)) + split_at_each(s@.skip(k + 1), sep));
        }
        start = k + 1;
    }
}

/// Whether `c` is white space, as Unicode defines the property.
pub open spec fn is_blank(c: char) -> bool {
    let u = c as u32;
    (0x09 <= u <= 0x0D) || u == 0x20 || u == 0x85 || u == 0xA0 || u == 0x1680 || (0x2000 <= u
        <= 0x200A) || u == 0x2028 || u == 0x2029 || u == 0x202F || u == 0x205F || u == 0x3000
}

/// `s` without the white space at its end.
pub open spec fn trim_end(s: Seq<char>) -> Seq<char>
    decreases s.len(),
{
    if s.len() > 0 && is_blank(s.last()) {
        trim_end(s.drop_last())
    } else {
        s
    }
}

/// `s` without the white space at its start.
pub open spec fn trim_start(s: Seq<char>) -> Seq<char> {
    s.skip(first_match(s, |c: char| !is_blank(c)))
}

/// `s` without the white space at either end.
pub open spec fn trimmed(s: Seq<char>) -> Seq<char> {
    trim_end(trim_start(s))
}

/// Tells white space from other characters.
pub fn blank(c: char) -> (b: bool)
    ensures
        b == is_blank(c),
{
    let u: u32 = c as u32;
    (0x09 <= u && u <= 0x0D) || u == 0x20 || u == 0x85 || u == 0xA0 || u == 0x1680 || (0x2000 <= u
        && u <= 0x200A) || u == 0x2028 || u == 0x2029 || u == 0x202F || u == 0x205F || u == 0x3000
}

/// Removes the white space at both ends of `s`.
pub fn trim(s: &str) -> (t: &str)
    ensures
        t@ == trimmed(s@),
{
    let n: usize = s.unicode_len();
    let ghost p = |c: char| !is_blank(c);
    let mut a: usize = 0;
    while a < n && blank(s.get_char(a))
        invariant
            n == s@.len(),
            a <= n,
            p == (|c: char| !is_blank(c)),
            forall|j: int| 0 <= j < a ==> !p(#[trigger] s@[j]),
        decreases n - a,
    {
        a = a + 1;
    }
    proof {
        lemma_first_match_is(s@, p, a as int);
        assert(s@.skip(a as int) =~= s@.subrange(a as int, n as int));
    }
    let mut b: usize = n;
    while b > a && blank(s.get_char(b - 1))
        invariant
            n == s@.len(),
            a <= b <= n,
            trim_end(s@.subrange(a as int, n as int)) == trim_end(s@.subrange(a as int, b as int)),
        decreases b,
    {
        proof {
            assert(s@.subrange(a as int, b as int).drop_last() =~= s@.subrange(
                a as int,
                b - 1,
            ));
        }
        b = b - 1;
    }
    s.substring_char(a, b)
}

} // verus!
