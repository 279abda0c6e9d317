//! Verified text helpers: equality, substring and prefix search, and
//! whole-word removal over character sequences. All contracts are stated
//! over `Seq<char>` views.
use vstd::prelude::*;

verus! {

/// The pattern `pat` occurs in `text` starting at position `i`.
pub open spec fn occurs_at(text: Seq<char>, pat: Seq<char>, i: int) -> bool {
    0 <= i && i + pat.len() <= text.len() && text.subrange(i, i + pat.len() as int) == pat
}

/// The pattern `pat` occurs somewhere in `text`.
pub open spec fn contains_seq(text: Seq<char>, pat: Seq<char>) -> bool {
    exists|i: int| occurs_at(text, pat, i)
}

/// `pat` is a prefix of `text`.
pub open spec fn is_prefix_of(text: Seq<char>, pat: Seq<char>) -> bool {
    pat.len() <= text.len() && text.subrange(0, pat.len() as int) == pat
}

/// Character-wise equality of two string slices.
pub fn str_eq(a: &str, b: &str) -> (r: bool)
    ensures
        r == (a@ == b@),
{
    let alen = a.unicode_len();
    let blen = b.unicode_len();
    if alen != blen {
        assert(a@.len() != b@.len());
        return false;
    }
    let mut i: usize = 0;
    while i < alen
        invariant
            i <= alen,
            alen == a@.len(),
            alen == b@.len(),
            forall|j: int| 0 <= j < i ==> a@[j] == b@[j],
        decreases alen - i,
    {
        if a.get_char(i) != b.get_char(i) {
            return false;
        }
        i += 1;
    }
    proof {
        assert(a@ =~= b@);
    }
    true
}

/// Does `text` start with `pat` at position `i`? Position arithmetic is the
/// caller's burden: `i + pat.len()` must stay within `text`.
fn matches_at(text: &str, tlen: usize, pat: &str, plen: usize, i: usize) -> (r: bool)
    requires
        tlen == text@.len(),
        plen == pat@.len(),
        i + plen <= tlen,
    ensures
        r == occurs_at(text@, pat@, i as int),
{
    let mut j: usize = 0;
    while j < plen
        invariant
            j <= plen,
            tlen == text@.len(),
            plen == pat@.len(),
            i + plen <= tlen,
            forall|k: int| 0 <= k < j ==> text@[i + k] == pat@[k],
        decreases plen - j,
    {
        if text.get_char(i + j) != pat.get_char(j) {
            assert(!occurs_at(text@, pat@, i as int)) by {
                assert(text@.subrange(i as int, i + pat@.len() as int)[j as int] == text@[i + j]);
            }
            return false;
        }
        j += 1;
    }
    proof {
        assert(text@.subrange(i as int, i + pat@.len() as int) =~= pat@);
    }
    true
}

/// Substring search: does `pat` occur anywhere in `text`?
pub fn str_contains(text: &str, pat: &str) -> (r: bool)
    ensures
        r == contains_seq(text@, pat@),
{
    let tlen = text.unicode_len();
    let plen = pat.unicode_len();
    if plen > tlen {
        assert(!contains_seq(text@, pat@)) by {
            assert(forall|i: int| !occurs_at(text@, pat@, i));
        }
        return false;
    }
    if plen == 0 {
        assert(occurs_at(text@, pat@, 0)) by {
            assert(text@.subrange(0, 0) =~= pat@);
        }
        return true;
    }
    let mut i: usize = 0;
    while i <= tlen - plen
        invariant
            tlen == text@.len(),
            plen == pat@.len(),
            0 < plen <= tlen,
            i <= tlen - plen + 1,
            forall|k: int| 0 <= k < i ==> !occurs_at(text@, pat@, k),
        decreases tlen - i,
    {
        if matches_at(text, tlen, pat, plen, i) {
            return true;
        }
        i += 1;
    }
    assert(!contains_seq(text@, pat@)) by {
        assert(forall|k: int| occurs_at(text@, pat@, k) ==> 0 <= k <= tlen - plen);
    }
    false
}

/// Prefix test.
pub fn str_starts_with(text: &str, pat: &str) -> (r: bool)
    ensures
        r == is_prefix_of(text@, pat@),
{
    let tlen = text.unicode_len();
    let plen = pat.unicode_len();
    if plen > tlen {
        return false;
    }
    matches_at(text, tlen, pat, plen, 0)
}

/// The least position at which `pat` occurs in `text` (meaningful only when
/// it occurs at all).
pub open spec fn first_occurrence(text: Seq<char>, pat: Seq<char>) -> int {
    choose|i: int|
        occurs_at(text, pat, i) && forall|k: int| 0 <= k < i ==> !occurs_at(text, pat, k)
}

/// Finds the first occurrence of `pat` in `text`: `Some` exactly when the
/// pattern occurs, carrying the least position.
pub fn str_find(text: &str, pat: &str) -> (r: Option<usize>)
    ensures
        r is Some <==> contains_seq(text@, pat@),
        r matches Some(i) ==> {
            &&& occurs_at(text@, pat@, i as int)
            &&& forall|k: int| 0 <= k < i ==> !occurs_at(text@, pat@, k)
            &&& i as int == first_occurrence(text@, pat@)
        },
{
    let tlen = text.unicode_len();
    let plen = pat.unicode_len();
    if plen > tlen {
        assert(!contains_seq(text@, pat@)) by {
            assert(forall|i: int| !occurs_at(text@, pat@, i));
        }
        return None;
    }
    if plen == 0 {
        assert(occurs_at(text@, pat@, 0)) by {
            assert(text@.subrange(0, 0) =~= pat@);
        }
        proof {
            assert(first_occurrence(text@, pat@) == 0) by {
                let j = first_occurrence(text@, pat@);
                assert(occurs_at(text@, pat@, 0) && forall|k: int|
                    0 <= k < 0 ==> !occurs_at(text@, pat@, k));
            }
        }
        return Some(0);
    }
    let mut i: usize = 0;
    while i <= tlen - plen
        invariant
            tlen == text@.len(),
            plen == pat@.len(),
            0 < plen <= tlen,
            i <= tlen - plen + 1,
            forall|k: int| 0 <= k < i ==> !occurs_at(text@, pat@, k),
        decreases tlen - i,
    {
        if matches_at(text, tlen, pat, plen, i) {
            proof {
                assert(first_occurrence(text@, pat@) == i as int) by {
                    assert(occurs_at(text@, pat@, i as int) && forall|k: int|
                        0 <= k < i ==> !occurs_at(text@, pat@, k));
                    let j = first_occurrence(text@, pat@);
                    assert(occurs_at(text@, pat@, j) && forall|k: int|
                        0 <= k < j ==> !occurs_at(text@, pat@, k));
                }
            }
            return Some(i);
        }
        i += 1;
    }
    assert(!contains_seq(text@, pat@)) by {
        assert(forall|k: int| occurs_at(text@, pat@, k) ==> 0 <= k <= tlen - plen);
    }
    None
}

/// What removing every occurrence of `pat` from `text` yields, scanning left
/// to right and skipping a matched occurrence whole.
pub open spec fn remove_all_spec(text: Seq<char>, pat: Seq<char>) -> Seq<char>
    decreases text.len(),
{
    if pat.len() == 0 || text.len() == 0 {
        text
    } else if occurs_at(text, pat, 0) {
        remove_all_spec(text.skip(pat.len() as int), pat)
    } else {
        seq![text[0]] + remove_all_spec(text.skip(1), pat)
    }
}

/// Removes every occurrence of `pat` from `text`, scanning left to right.
pub fn remove_all(text: &str, pat: &str) -> (r: String)
    ensures
        r@ == remove_all_spec(text@, pat@),
{
    let tlen = text.unicode_len();
    let plen = pat.unicode_len();
    let mut out = String::new();
    if plen == 0 {
        return String::from_str(text);
    }
    let mut i: usize = 0;
    proof {
        assert(text@.skip(0) =~= text@);
        assert(out@ + remove_all_spec(text@, pat@) =~= remove_all_spec(text@, pat@));
    }
    while i < tlen
        invariant
            tlen == text@.len(),
            plen == pat@.len(),
            plen > 0,
            i <= tlen,
            out@ + remove_all_spec(text@.skip(i as int), pat@) == remove_all_spec(text@, pat@),
        decreases tlen - i,
    {
        let ghost rest = text@.skip(i as int);
        if plen <= tlen && i <= tlen - plen && matches_at(text, tlen, pat, plen, i) {
            proof {
                assert(occurs_at(rest, pat@, 0)) by {
                    assert(rest.subrange(0, pat@.len() as int) =~= text@.subrange(
                        i as int,
                        i + pat@.len() as int,
                    ));
                }
                assert(rest.skip(plen as int) =~= text@.skip(i + plen));
            }
            i += plen;
        } else {
            proof {
                if plen <= tlen && i <= tlen - plen {
                    assert(!occurs_at(rest, pat@, 0)) by {
                        assert(rest.subrange(0, pat@.len() as int) =~= text@.subrange(
                            i as int,
                            i + pat@.len() as int,
                        ));
                    }
                } else {
                    assert(!occurs_at(rest, pat@, 0));
                }
                assert(rest.skip(1) =~= text@.skip(i + 1));
                assert(remove_all_spec(rest, pat@) == seq![text@[i as int]] + remove_all_spec(
                    text@.skip(i + 1),
                    pat@,
                ));
            }
            let piece = text.substring_char(i, i + 1);
            proof {
                assert(piece@ =~= seq![text@[i as int]]);
            }
            out.append(piece);
            proof {
                assert(out@ + remove_all_spec(text@.skip(i + 1), pat@) =~= remove_all_spec(
                    text@,
                    pat@,
                ));
            }
            i += 1;
        }
    }
    proof {
        assert(text@.skip(tlen as int) =~= Seq::<char>::empty());
        assert(out@ =~= out@ + remove_all_spec(text@.skip(tlen as int), pat@));
    }
    out
}

} // verus!
