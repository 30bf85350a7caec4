//! Verified scanning primitives over byte sequences: first occurrence,
//! splitting on a separator, ASCII lowercasing and substring search.

use vstd::prelude::*;
use vstd::slice::{slice_subrange, slice_to_vec};

verus! {

/// Index of the first occurrence of `b` in `s`, or `s.len()` if absent.
pub open spec fn idx_of(s: Seq<u8>, b: u8) -> int
    decreases s.len(),
{
    if s.len() == 0 {
        0
    } else if s[0] == b {
        0
    } else {
        1 + idx_of(s.drop_first(), b)
    }
}

/// `idx_of` names the first occurrence: it is in bounds exactly when the byte
/// occurs, points at the byte, and everything before it differs from the byte.
pub proof fn lemma_idx_of(s: Seq<u8>, b: u8)
    ensures
        0 <= idx_of(s, b) <= s.len(),
        idx_of(s, b) < s.len() ==> s[idx_of(s, b)] == b,
        forall|j: int| 0 <= j < idx_of(s, b) ==> s[j] != b,
    decreases s.len(),
{
    if s.len() != 0 && s[0] != b {
        lemma_idx_of(s.drop_first(), b);
        if idx_of(s, b) < s.len() {
            assert(s[idx_of(s, b)] == s.drop_first()[idx_of(s, b) - 1]);
        }
        assert forall|j: int| 0 <= j < idx_of(s, b) implies s[j] != b by {
            if j > 0 {
                assert(s.drop_first()[j - 1] == s[j]);
            }
        }
    }
}

/// The pieces of `s` between occurrences of the separator `b`, in order.
/// An input without the separator is a single piece; each separator starts a
/// new piece, so trailing separators produce empty pieces.
pub open spec fn split_on(s: Seq<u8>, b: u8) -> Seq<Seq<u8>>
    decreases s.len(),
{
    let i = idx_of(s, b);
    if 0 <= i < s.len() {
        seq![s.subrange(0, i)] + split_on(s.subrange(i + 1, s.len() as int), b)
    } else {
        seq![s]
    }
}

/// First occurrence of `b` in `s`, if any.
pub fn find_byte(s: &[u8], b: u8) -> (r: Option<usize>)
    ensures
        r matches Some(i) ==> idx_of(s@, b) == i as int && (i as int) < s@.len(),
        r is None ==> idx_of(s@, b) == s@.len(),
{
    proof {
        lemma_idx_of(s@, b);
    }
    let n = s.len();
    let mut i: usize = 0;
    while i < n
        invariant
            n == s@.len(),
            i <= n,
            forall|j: int| 0 <= j < i ==> s@[j] != b,
            0 <= idx_of(s@, b) <= s@.len(),
            idx_of(s@, b) < s@.len() ==> s@[idx_of(s@, b)] == b,
            forall|j: int| 0 <= j < idx_of(s@, b) ==> s@[j] != b,
        decreases n - i,
    {
        if s[i] == b {
            proof {
                if idx_of(s@, b) < i {
                    assert(s@[idx_of(s@, b)] == b);
                }
            }
            return Some(i);
        }
        i = i + 1;
    }
    None
}

/// Splits `s` on the separator `b`, mirroring [`split_on`].
pub fn split_on_byte(s: &[u8], b: u8) -> (r: Vec<Vec<u8>>)
    ensures
        r.deep_view() == split_on(s@, b),
    decreases s@.len(),
{
    proof {
        lemma_idx_of(s@, b);
    }
    match find_byte(s, b) {
        None => {
            let mut r: Vec<Vec<u8>> = Vec::new();
            r.push(slice_to_vec(s));
            proof {
                assert(r.deep_view() =~~= split_on(s@, b));
            }
            r
        },
        Some(i) => {
            let sn = s.len();
            let head: Vec<u8> = slice_to_vec(slice_subrange(s, 0, i));
            let tail = slice_subrange(s, i + 1, sn);
            let rest = split_on_byte(tail, b);
            let mut r: Vec<Vec<u8>> = Vec::new();
            r.push(head);
            let mut k: usize = 0;
            let n = rest.len();
            while k < n
                invariant
                    n == rest@.len(),
                    k <= n,
                    r@.len() == 1 + k,
                    r@[0]@ == s@.subrange(0, i as int),
                    forall|j: int| 1 <= j <= k ==> #[trigger] r@[j]@ == rest.deep_view()[j - 1],
                decreases n - k,
            {
                let piece: Vec<u8> = slice_to_vec(rest[k].as_slice());
                proof {
                    assert(piece@ =~= rest.deep_view()[k as int]);
                }
                r.push(piece);
                k = k + 1;
            }
            proof {
                let full = split_on(s@, b);
                assert(full == seq![s@.subrange(0, i as int)] + rest.deep_view());
                assert forall|j: int| 0 <= j < r@.len() implies r.deep_view()[j] =~= full[j] by {
                    if j >= 1 {
                        assert(r@[j]@ == rest.deep_view()[j - 1]);
                    }
                }
                assert(r.deep_view() =~~= full);
            }
            r
        },
    }
}

/// ASCII lowercase of one byte.
pub open spec fn lower_byte(x: u8) -> u8 {
    if 65 <= x <= 90 {
        (x + 32) as u8
    } else {
        x
    }
}

/// ASCII lowercase of a byte sequence.
pub open spec fn lower_bytes(s: Seq<u8>) -> Seq<u8> {
    s.map_values(|x: u8| lower_byte(x))
}

/// ASCII-lowercases every byte.
pub fn ascii_lower(s: &[u8]) -> (r: Vec<u8>)
    ensures
        r@ == lower_bytes(s@),
{
    let n = s.len();
    let mut r: Vec<u8> = Vec::new();
    let mut i: usize = 0;
    while i < n
        invariant
            n == s@.len(),
            i <= n,
            r@.len() == i,
            forall|j: int| 0 <= j < i ==> r@[j] == lower_byte(s@[j]),
        decreases n - i,
    {
        let x = s[i];
        if 65 <= x && x <= 90 {
            r.push(x + 32);
        } else {
            r.push(x);
        }
        i = i + 1;
    }
    proof {
        assert(r@ =~= lower_bytes(s@));
    }
    r
}

/// `needle` occurs in `hay` starting at position `i`.
pub open spec fn match_at(hay: Seq<u8>, needle: Seq<u8>, i: int) -> bool {
    &&& 0 <= i
    &&& i + needle.len() <= hay.len()
    &&& hay.subrange(i, i + needle.len() as int) == needle
}

/// `needle` occurs somewhere in `hay`.
pub open spec fn contains_seq(hay: Seq<u8>, needle: Seq<u8>) -> bool {
    exists|i: int| match_at(hay, needle, i)
}

/// Whether `needle` occurs in `hay` starting at `at`.
fn matches_at(hay: &[u8], needle: &[u8], at: usize) -> (r: bool)
    requires
        at + needle@.len() <= hay@.len(),
    ensures
        r == match_at(hay@, needle@, at as int),
{
    let h = hay.len();
    let n = needle.len();
    let mut k: usize = 0;
    while k < n
        invariant
            h == hay@.len(),
            n == needle@.len(),
            at + n <= h,
            k <= n,
            forall|j: int| 0 <= j < k ==> hay@[at + j] == needle@[j],
        decreases n - k,
    {
        if hay[at + k] != needle[k] {
            proof {
                assert(hay@.subrange(at as int, at + needle@.len() as int)[k as int]
                    != needle@[k as int]);
            }
            return false;
        }
        k = k + 1;
    }
    proof {
        assert(hay@.subrange(at as int, at + needle@.len() as int) =~= needle@);
    }
    true
}

/// Verified substring search.
pub fn contains_bytes(hay: &[u8], needle: &[u8]) -> (r: bool)
    ensures
        r == contains_seq(hay@, needle@),
{
    let nh = hay.len();
    let nn = needle.len();
    if nn > nh {
        proof {
            assert(forall|i: int| !match_at(hay@, needle@, i));
        }
        return false;
    }
    let last = nh - nn;
    let mut i: usize = 0;
    while i < last
        invariant
            nh == hay@.len(),
            nn == needle@.len(),
            nn <= nh,
            last == nh - nn,
            i <= last,
            forall|j: int| 0 <= j < i ==> !match_at(hay@, needle@, j),
        decreases last - i,
    {
        if matches_at(hay, needle, i) {
            return true;
        }
        i = i + 1;
    }
    let r = matches_at(hay, needle, last);
    proof {
        if !r {
            assert(forall|j: int| match_at(hay@, needle@, j) ==> 0 <= j <= last);
        }
    }
    r
}


/// Verified byte-sequence equality.
pub fn bytes_equal(a: &[u8], b: &[u8]) -> (r: bool)
    ensures
        r == (a@ == b@),
{
    let n = a.len();
    if n != b.len() {
        return false;
    }
    let mut i: usize = 0;
    while i < n
        invariant
            n == a@.len(),
            n == b@.len(),
            i <= n,
            forall|j: int| 0 <= j < i ==> a@[j] == b@[j],
        decreases n - i,
    {
        if a[i] != b[i] {
            return false;
        }
        i = i + 1;
    }
    proof {
        assert(a@ =~= b@);
    }
    true
}

} // verus!
