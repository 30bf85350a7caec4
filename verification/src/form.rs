//! Verified parsing of `application/x-www-form-urlencoded` bodies.
//!
//! The body is split on `&`; each piece with an `=` contributes one
//! key-value pair, percent-decoded and UTF-8-checked; pieces without `=` are
//! skipped. Lookup follows map-insertion semantics: with a repeated key the
//! last pair wins.

use vstd::prelude::*;
use vstd::slice::slice_subrange;
use vstd::string::StringExecFns;
use vstd::utf8::{decode_utf8, encode_utf8, valid_utf8};
use crate::error::SlackError;
use crate::percent::{decode_bytes, percent_decode};
use crate::scan::{find_byte, idx_of, lemma_idx_of, split_on, split_on_byte};
use crate::strconv::{str_to_bytes, utf8_to_string};

verus! {

/// What one `&`-separated piece contributes: `None` when decoding fails,
/// `Some(None)` when the piece has no `=` and is skipped, and `Some(Some(kv))`
/// for a decoded pair.
pub open spec fn pair_of(piece: Seq<u8>) -> Option<Option<(Seq<char>, Seq<char>)>> {
    let i = idx_of(piece, 61);
    if !(0 <= i < piece.len()) {
        Some(None)
    } else {
        let kb = percent_decode(piece.subrange(0, i));
        let vb = percent_decode(piece.subrange(i + 1, piece.len() as int));
        if valid_utf8(kb) && valid_utf8(vb) {
            Some(Some((decode_utf8(kb), decode_utf8(vb))))
        } else {
            None
        }
    }
}

/// The pairs contributed by a sequence of pieces, in order; `None` when any
/// piece fails to decode.
pub open spec fn form_pairs(pieces: Seq<Seq<u8>>) -> Option<Seq<(Seq<char>, Seq<char>)>>
    decreases pieces.len(),
{
    if pieces.len() == 0 {
        Some(Seq::empty())
    } else {
        match form_pairs(pieces.drop_last()) {
            None => None,
            Some(acc) => match pair_of(pieces.last()) {
                None => None,
                Some(None) => Some(acc),
                Some(Some(kv)) => Some(acc.push(kv)),
            },
        }
    }
}

/// The decoded pairs of a form body, or `None` when it cannot be decoded.
pub open spec fn form_parse(body: Seq<char>) -> Option<Seq<(Seq<char>, Seq<char>)>> {
    form_pairs(split_on(encode_utf8(body), 38))
}

/// A failing piece anywhere makes the whole parse fail.
proof fn lemma_form_pairs_elem_none(pieces: Seq<Seq<u8>>, k: int)
    requires
        0 <= k < pieces.len(),
        pair_of(pieces[k]) is None,
    ensures
        form_pairs(pieces) is None,
    decreases pieces.len(),
{
    if k < pieces.len() - 1 {
        assert(pieces.drop_last()[k] == pieces[k]);
        lemma_form_pairs_elem_none(pieces.drop_last(), k);
    }
}

/// The pair view of an owned pair vector.
pub open spec fn pairs_view(v: Seq<(String, String)>) -> Seq<(Seq<char>, Seq<char>)> {
    v.map_values(|p: (String, String)| (p.0@, p.1@))
}

/// Map-style lookup over pairs in insertion order: the last pair whose key
/// matches wins.
pub open spec fn form_get(pairs: Seq<(Seq<char>, Seq<char>)>, key: Seq<char>) -> Option<
    Seq<char>,
>
    decreases pairs.len(),
{
    if pairs.len() == 0 {
        None
    } else if pairs.last().0 == key {
        Some(pairs.last().1)
    } else {
        form_get(pairs.drop_last(), key)
    }
}

/// The looked-up value of `key`, or the empty string when absent.
pub open spec fn form_get_or_empty(pairs: Seq<(Seq<char>, Seq<char>)>, key: Seq<char>) -> Seq<
    char,
> {
    match form_get(pairs, key) {
        Some(v) => v,
        None => Seq::empty(),
    }
}

/// Parses a form body into decoded pairs, mirroring [`form_parse`].
pub fn parse_form_data(body: &str) -> (r: core::result::Result<Vec<(String, String)>, SlackError>)
    ensures
        r is Ok <==> form_parse(body@) is Some,
        r matches Ok(v) ==> form_parse(body@) == Some(pairs_view(v@)),
        r matches Err(e) ==> e matches SlackError::Internal(_),
{
    let bytes = str_to_bytes(body);
    let pieces = split_on_byte(bytes.as_slice(), 38);
    let n = pieces.len();
    let mut out: Vec<(String, String)> = Vec::new();
    let mut k: usize = 0;
    proof {
        assert(pieces.deep_view().subrange(0, 0) =~= Seq::<Seq<u8>>::empty());
        assert(pairs_view(out@) =~= Seq::<(Seq<char>, Seq<char>)>::empty());
    }
    while k < n
        invariant
            n == pieces@.len(),
            k <= n,
            pieces.deep_view() == split_on(encode_utf8(body@), 38),
            form_pairs(pieces.deep_view().subrange(0, k as int)) == Some(pairs_view(out@)),
        decreases n - k,
    {
        let piece = &pieces[k];
        let ghost pv = pieces.deep_view()[k as int];
        let ghost pref = pieces.deep_view().subrange(0, k as int);
        let ghost prefx = pieces.deep_view().subrange(0, k + 1);
        proof {
            assert(prefx.drop_last() =~= pref);
            assert(prefx.last() == pv);
            assert(pieces@[k as int]@ =~= pv);
            lemma_idx_of(pv, 61);
        }
        match find_byte(piece.as_slice(), 61) {
            None => {
                proof {
                    assert(pair_of(pv) == Some(Option::<(Seq<char>, Seq<char>)>::None));
                }
            },
            Some(i) => {
                let pn = piece.len();
                let kb = decode_bytes(slice_subrange(piece.as_slice(), 0, i));
                let vb = decode_bytes(slice_subrange(piece.as_slice(), i + 1, pn));
                proof {
                    assert(kb@ == percent_decode(pv.subrange(0, i as int)));
                    assert(vb@ == percent_decode(pv.subrange(i + 1, pv.len() as int)));
                }
                let ks = utf8_to_string(kb);
                let vs = utf8_to_string(vb);
                match (ks, vs) {
                    (Some(kstr), Some(vstr)) => {
                        proof {
                            assert(pair_of(pv) == Some(Some((kstr@, vstr@))));
                        }
                        out.push((kstr, vstr));
                        proof {
                            assert(pairs_view(out@) =~= pairs_view(out@.drop_last()).push(
                                (out@.last().0@, out@.last().1@),
                            ));
                        }
                    },
                    _ => {
                        proof {
                            assert(pair_of(pv) is None);
                            lemma_form_pairs_elem_none(pieces.deep_view(), k as int);
                        }
                        return Err(SlackError::Internal(String::from_str(
                            "Failed to decode form data",
                        )));
                    },
                }
            },
        }
        k = k + 1;
        proof {
            assert(form_pairs(pieces.deep_view().subrange(0, k as int)) == Some(
                pairs_view(out@),
            ));
        }
    }
    proof {
        assert(pieces.deep_view().subrange(0, n as int) =~= pieces.deep_view());
    }
    Ok(out)
}

/// Looks up `key` among decoded pairs, mirroring [`form_get`].
pub fn form_lookup(pairs: &Vec<(String, String)>, key: &str) -> (r: Option<String>)
    ensures
        match r {
            Some(v) => form_get(pairs_view(pairs@), key@) == Some(v@),
            None => form_get(pairs_view(pairs@), key@) is None,
        },
{
    let keyq = String::from_str(key);
    let n = pairs.len();
    let mut k: usize = n;
    proof {
        assert(pairs@.subrange(0, n as int) =~= pairs@);
    }
    while k > 0
        invariant
            n == pairs@.len(),
            k <= n,
            keyq@ == key@,
            form_get(pairs_view(pairs@), key@) == form_get(
                pairs_view(pairs@.subrange(0, k as int)),
                key@,
            ),
        decreases k,
    {
        let ghost pre = pairs@.subrange(0, k as int);
        proof {
            assert(pre.len() == k as int);
            assert(pairs_view(pre).len() == k as int);
            assert(pairs_view(pre).last() == (pre.last().0@, pre.last().1@));
            assert(pairs_view(pre).drop_last() =~= pairs_view(pre.drop_last()));
            assert(pre.drop_last() =~= pairs@.subrange(0, k - 1));
            assert(pre.last() == pairs@[k - 1]);
        }
        k = k - 1;
        if pairs[k].0 == keyq {
            let v = pairs[k].1.clone();
            proof {
                assert(pairs_view(pre).last().0 == key@);
                assert(form_get(pairs_view(pre), key@) == Some(pairs_view(pre).last().1));
            }
            return Some(v);
        }
        proof {
            assert(pairs_view(pre).last().0 != key@);
            assert(form_get(pairs_view(pre), key@) == form_get(
                pairs_view(pre).drop_last(),
                key@,
            ));
        }
    }
    proof {
        assert(pairs_view(pairs@.subrange(0, 0)) =~= Seq::<(Seq<char>, Seq<char>)>::empty());
    }
    None
}

/// Looks up `key`, defaulting to the empty string, mirroring
/// [`form_get_or_empty`].
pub fn form_lookup_or_empty(pairs: &Vec<(String, String)>, key: &str) -> (r: String)
    ensures
        r@ == form_get_or_empty(pairs_view(pairs@), key@),
{
    match form_lookup(pairs, key) {
        Some(v) => v,
        None => String::new(),
    }
}

} // verus!
