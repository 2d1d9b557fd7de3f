//! Character-sequence matching: case-sensitive substring and suffix tests,
//! implemented and verified here, and a trusted lower-casing wrapper.
use vstd::prelude::*;
use vstd::string::*;

verus! {

/// `needle` occurs in `hay` as a contiguous run starting at position `i`.
pub open spec fn matches_at(hay: Seq<char>, needle: Seq<char>, i: int) -> bool {
    0 <= i && i + needle.len() <= hay.len() && hay.subrange(i, i + needle.len()) == needle
}

/// Plain substring containment over character sequences.
pub open spec fn contains_seq(hay: Seq<char>, needle: Seq<char>) -> bool {
    exists|i: int| matches_at(hay, needle, i)
}

/// `suffix` is the tail of `s`.
pub open spec fn ends_with_seq(s: Seq<char>, suffix: Seq<char>) -> bool {
    s.len() >= suffix.len() && matches_at(s, suffix, s.len() - suffix.len())
}

/// The empty sequence is contained in every sequence.
pub proof fn lemma_contains_empty(hay: Seq<char>)
    ensures
        contains_seq(hay, Seq::<char>::empty()),
{
    assert(hay.subrange(0, 0) =~= Seq::<char>::empty());
    assert(matches_at(hay, Seq::<char>::empty(), 0));
}

/// Does `needle` match `hay` at offset `off`?
fn eq_at(hay: &str, needle: &str, off: usize) -> (r: bool)
    requires
        off + needle@.len() <= hay@.len(),
    ensures
        r == matches_at(hay@, needle@, off as int),
{
    let hlen = hay.unicode_len();
    let nlen = needle.unicode_len();
    let mut j: usize = 0;
    while j < nlen
        invariant
            hlen == hay@.len(),
            nlen == needle@.len(),
            off + nlen <= hlen,
            j <= nlen,
            forall|k: int| 0 <= k < j ==> hay@[off + k] == needle@[k],
        decreases nlen - j,
    {
        if hay.get_char(off + j) != needle.get_char(j) {
            proof {
                if matches_at(hay@, needle@, off as int) {
                    assert(hay@.subrange(off as int, off + needle@.len())[j as int]
                        == needle@[j as int]);
                }
            }
            return false;
        }
        j += 1;
    }
    proof {
        assert(hay@.subrange(off as int, off + needle@.len()) =~= needle@);
    }
    true
}

/// Substring containment check, the executable side of `contains_seq`.
pub fn contains_substring(hay: &str, needle: &str) -> (r: bool)
    ensures
        r == contains_seq(hay@, needle@),
{
    let hlen = hay.unicode_len();
    let nlen = needle.unicode_len();
    if nlen > hlen {
        proof {
            assert forall|i: int| !matches_at(hay@, needle@, i) by {}
        }
        return false;
    }
    if nlen == 0 {
        proof {
            assert(needle@ =~= Seq::<char>::empty());
            lemma_contains_empty(hay@);
        }
        return true;
    }
    let mut i: usize = 0;
    while i <= hlen - nlen
        invariant
            hlen == hay@.len(),
            nlen == needle@.len(),
            1 <= nlen <= hlen,
            i <= hlen - nlen + 1,
            forall|k: int| 0 <= k < i ==> !matches_at(hay@, needle@, k),
        decreases hlen - nlen - i + 1,
    {
        if eq_at(hay, needle, i) {
            return true;
        }
        i += 1;
    }
    proof {
        assert forall|k: int| !matches_at(hay@, needle@, k) by {
            if 0 <= k < i {
                assert(!matches_at(hay@, needle@, k));
            }
        }
    }
    false
}

/// Suffix check, the executable side of `ends_with_seq`.
pub fn ends_with_str(s: &str, suffix: &str) -> (r: bool)
    ensures
        r == ends_with_seq(s@, suffix@),
{
    let slen = s.unicode_len();
    let xlen = suffix.unicode_len();
    if xlen > slen {
        return false;
    }
    eq_at(s, suffix, slen - xlen)
}

/// Character-for-character string equality.
pub fn str_eq(a: &str, b: &str) -> (r: bool)
    ensures
        r == (a@ == b@),
{
    let alen = a.unicode_len();
    let blen = b.unicode_len();
    if alen != blen {
        return false;
    }
    let r = eq_at(a, b, 0);
    proof {
        if r {
            assert(a@.subrange(0, a@.len() as int) =~= a@);
        } else {
            if a@ == b@ {
                assert(a@.subrange(0, b@.len() as int) =~= b@);
            }
        }
    }
    r
}

/// What `str::to_lowercase` returns: a pure function of the characters alone.
pub uninterp spec fn lower_of(s: Seq<char>) -> Seq<char>;

/// Relies on `str::to_lowercase`: the result depends only on the input
/// characters (Unicode lowercase mapping), and an empty string stays empty.
#[verifier::external_body]
pub(crate) fn lowercase(s: &str) -> (r: String)
    ensures
        r@ == lower_of(s@),
        s@.len() == 0 ==> r@.len() == 0,
{
    s.to_lowercase()
}

} // verus!
