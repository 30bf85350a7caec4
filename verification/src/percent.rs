//! Verified percent-encoding and percent-decoding of URL components.
//!
//! Decoding is lenient, as webhook form bodies require: a `%` followed by two
//! hex digits becomes one byte, any other byte (including a lone `%` and `+`)
//! is copied through unchanged. Encoding keeps unreserved characters and
//! escapes every other byte as `%XX` with uppercase hex digits.

use vstd::prelude::*;

verus! {

/// Value of an ASCII hex digit, if the byte is one.
pub open spec fn hex_val(b: u8) -> Option<u8> {
    if 48 <= b <= 57 {
        Some((b - 48) as u8)
    } else if 97 <= b <= 102 {
        Some((b - 87) as u8)
    } else if 65 <= b <= 70 {
        Some((b - 55) as u8)
    } else {
        None
    }
}

/// Whether position 0 of `s` starts a well-formed `%XX` escape.
pub open spec fn starts_escape(s: Seq<u8>) -> bool {
    s.len() >= 3 && s[0] == 37 && hex_val(s[1]) is Some && hex_val(s[2]) is Some
}

/// Lenient percent-decoding of a byte sequence.
pub open spec fn percent_decode(s: Seq<u8>) -> Seq<u8>
    decreases s.len(),
{
    if s.len() == 0 {
        Seq::empty()
    } else if starts_escape(s) {
        seq![(hex_val(s[1]).unwrap() * 16 + hex_val(s[2]).unwrap()) as u8] + percent_decode(
            s.subrange(3, s.len() as int),
        )
    } else {
        seq![s[0]] + percent_decode(s.subrange(1, s.len() as int))
    }
}

/// Value of an ASCII hex digit, executable form.
fn hex_digit(b: u8) -> (r: Option<u8>)
    ensures
        r == hex_val(b),
{
    if 48 <= b && b <= 57 {
        Some(b - 48)
    } else if 97 <= b && b <= 102 {
        Some(b - 87)
    } else if 65 <= b && b <= 70 {
        Some(b - 55)
    } else {
        None
    }
}

/// Decodes `%XX` escapes in `s`, mirroring [`percent_decode`].
pub fn decode_bytes(s: &[u8]) -> (r: Vec<u8>)
    ensures
        r@ == percent_decode(s@),
{
    let n = s.len();
    let mut out: Vec<u8> = Vec::new();
    let mut i: usize = 0;
    proof {
        assert(s@.subrange(0, n as int) =~= s@);
    }
    while i < n
        invariant
            n == s@.len(),
            i <= n,
            percent_decode(s@) == out@ + percent_decode(s@.subrange(i as int, n as int)),
        decreases n - i,
    {
        let ghost suf = s@.subrange(i as int, n as int);
        if n - i >= 3 {
            let b0 = s[i];
            if b0 == 37 {
                let h1 = hex_digit(s[i + 1]);
                let h2 = hex_digit(s[i + 2]);
                if let (Some(v1), Some(v2)) = (h1, h2) {
                    proof {
                        assert(starts_escape(suf));
                        assert(suf.subrange(3, suf.len() as int) =~= s@.subrange(
                            i + 3,
                            n as int,
                        ));
                    }
                    out.push(v1 * 16 + v2);
                    i = i + 3;
                    continue ;
                }
            }
        }
        proof {
            assert(!starts_escape(suf));
            assert(suf.subrange(1, suf.len() as int) =~= s@.subrange(i + 1, n as int));
        }
        out.push(s[i]);
        i = i + 1;
    }
    proof {
        assert(s@.subrange(n as int, n as int) =~= Seq::<u8>::empty());
        assert(out@ =~= percent_decode(s@));
    }
    out
}

/// Characters that pass through percent-encoding unescaped.
pub open spec fn is_unreserved(b: u8) -> bool {
    ||| 48 <= b <= 57
    ||| 65 <= b <= 90
    ||| 97 <= b <= 122
    ||| b == 45
    ||| b == 46
    ||| b == 95
    ||| b == 126
}

/// Uppercase hex digit character for a value below 16.
pub open spec fn hex_upper(n: u8) -> char {
    if n < 10 {
        ((48 + n) as u8) as char
    } else {
        ((55 + n) as u8) as char
    }
}

/// Percent-encoding of one byte, as characters.
pub open spec fn enc_byte(b: u8) -> Seq<char> {
    if is_unreserved(b) {
        seq![b as char]
    } else {
        seq!['%', hex_upper(b / 16), hex_upper(b % 16)]
    }
}

/// Percent-encoding of a byte sequence, as characters.
pub open spec fn percent_encode(s: Seq<u8>) -> Seq<char>
    decreases s.len(),
{
    if s.len() == 0 {
        Seq::empty()
    } else {
        enc_byte(s[0]) + percent_encode(s.subrange(1, s.len() as int))
    }
}

/// Encodes every byte of `s`, mirroring [`percent_encode`].
pub fn encode_bytes(s: &[u8]) -> (r: Vec<char>)
    ensures
        r@ == percent_encode(s@),
{
    let n = s.len();
    let mut out: Vec<char> = Vec::new();
    let mut i: usize = 0;
    proof {
        assert(s@.subrange(0, n as int) =~= s@);
    }
    while i < n
        invariant
            n == s@.len(),
            i <= n,
            percent_encode(s@) == out@ + percent_encode(s@.subrange(i as int, n as int)),
        decreases n - i,
    {
        let ghost suf = s@.subrange(i as int, n as int);
        let b = s[i];
        let unreserved = (48 <= b && b <= 57) || (65 <= b && b <= 90) || (97 <= b && b <= 122)
            || b == 45 || b == 46 || b == 95 || b == 126;
        if unreserved {
            out.push(b as char);
        } else {
            out.push('%');
            let hi = b / 16;
            let lo = b % 16;
            out.push(if hi < 10 {
                (48 + hi) as char
            } else {
                (55 + hi) as char
            });
            out.push(if lo < 10 {
                (48 + lo) as char
            } else {
                (55 + lo) as char
            });
        }
        i = i + 1;
        proof {
            assert(suf.subrange(1, suf.len() as int) =~= s@.subrange(i as int, n as int));
        }
    }
    proof {
        assert(s@.subrange(n as int, n as int) =~= Seq::<u8>::empty());
        assert(out@ =~= percent_encode(s@));
    }
    out
}

} // verus!
