//! A verified scanner for the JSON bodies the platform sends.
//!
//! The classifier needs the members of a top-level JSON object: decoded
//! string fields, integer fields, and the raw text of nested values. This
//! module defines the grammar as specification functions over character
//! sequences and mirrors them with executable scanners.
//!
//! Two deliberate simplifications against full JSON: number lexemes are
//! scanned as maximal runs of number characters without further syntax
//! checks, and `\u` escapes for surrogate pairs are rejected rather than
//! combined.

use vstd::prelude::*;
use crate::strconv::{char_from_code, chars_to_string, is_scalar_value};

verus! {

/// JSON insignificant whitespace.
pub open spec fn is_ws(c: char) -> bool {
    c == ' ' || c == '\t' || c == '\n' || c == '\r'
}

/// First position at or after `i` holding a non-whitespace character.
pub open spec fn skip_ws(s: Seq<char>, i: int) -> int
    decreases s.len() - i,
{
    if 0 <= i < s.len() && is_ws(s[i]) {
        skip_ws(s, i + 1)
    } else {
        i
    }
}

/// Value of a hex digit character, if it is one.
pub open spec fn hexv(c: char) -> Option<u32> {
    let n = c as u32;
    if 48 <= n <= 57 {
        Some((n - 48) as u32)
    } else if 97 <= n <= 102 {
        Some((n - 87) as u32)
    } else if 65 <= n <= 70 {
        Some((n - 55) as u32)
    } else {
        None
    }
}

/// The character produced by a single-character escape, if the escape is
/// one of the simple ones.
pub open spec fn simple_escape(c: char) -> Option<char> {
    if c == '"' {
        Some('"')
    } else if c == '\\' {
        Some('\\')
    } else if c == '/' {
        Some('/')
    } else if c == 'b' {
        Some(8u8 as char)
    } else if c == 'f' {
        Some(12u8 as char)
    } else if c == 'n' {
        Some('\n')
    } else if c == 'r' {
        Some('\r')
    } else if c == 't' {
        Some('\t')
    } else {
        None
    }
}

/// Scans the body of a string token starting just after the opening quote at
/// position `i - 1`: the decoded characters and the position just after the
/// closing quote.
pub open spec fn jstr_body(s: Seq<char>, i: int) -> Option<(Seq<char>, int)>
    decreases s.len() - i,
{
    if !(0 <= i < s.len()) {
        None
    } else if s[i] == '"' {
        Some((Seq::empty(), i + 1))
    } else if s[i] == '\\' {
        if i + 1 >= s.len() {
            None
        } else if s[i + 1] == 'u' {
            if i + 6 > s.len() {
                None
            } else {
                let h1 = hexv(s[i + 2]);
                let h2 = hexv(s[i + 3]);
                let h3 = hexv(s[i + 4]);
                let h4 = hexv(s[i + 5]);
                if h1 is Some && h2 is Some && h3 is Some && h4 is Some {
                    let code = ((h1.unwrap() * 4096 + h2.unwrap() * 256 + h3.unwrap() * 16
                        + h4.unwrap()) as u32);
                    if is_scalar_value(code) {
                        match jstr_body(s, i + 6) {
                            None => None,
                            Some((rest, end)) => Some((seq![code as char] + rest, end)),
                        }
                    } else {
                        None
                    }
                } else {
                    None
                }
            }
        } else {
            match simple_escape(s[i + 1]) {
                None => None,
                Some(c) => match jstr_body(s, i + 2) {
                    None => None,
                    Some((rest, end)) => Some((seq![c] + rest, end)),
                },
            }
        }
    } else if (s[i] as u32) < 32 {
        None
    } else {
        match jstr_body(s, i + 1) {
            None => None,
            Some((rest, end)) => Some((seq![s[i]] + rest, end)),
        }
    }
}

/// The scanned end position of a string body lies beyond its start and
/// within bounds.
pub proof fn lemma_jstr_body_bounds(s: Seq<char>, i: int)
    requires
        0 <= i,
    ensures
        jstr_body(s, i) matches Some((d, end)) ==> i < end <= s.len(),
    decreases s.len() - i,
{
    if 0 <= i < s.len() {
        if s[i] == '\\' {
            if i + 1 < s.len() {
                if s[i + 1] == 'u' {
                    if i + 6 <= s.len() {
                        lemma_jstr_body_bounds(s, i + 6);
                    }
                } else {
                    lemma_jstr_body_bounds(s, i + 2);
                }
            }
        } else if s[i] != '"' {
            lemma_jstr_body_bounds(s, i + 1);
        }
    }
}

/// Characters that may appear in a number lexeme.
pub open spec fn is_num_char(c: char) -> bool {
    let n = c as u32;
    (48 <= n <= 57) || c == '-' || c == '+' || c == '.' || c == 'e' || c == 'E'
}

/// End of the maximal run of number characters starting at `i`.
pub open spec fn jnum_end(s: Seq<char>, i: int) -> int
    decreases s.len() - i,
{
    if 0 <= i < s.len() && is_num_char(s[i]) {
        jnum_end(s, i + 1)
    } else {
        i
    }
}

/// `jnum_end` moves forward and stays within bounds.
pub proof fn lemma_jnum_end(s: Seq<char>, i: int)
    requires
        0 <= i <= s.len(),
    ensures
        i <= jnum_end(s, i) <= s.len(),
    decreases s.len() - i,
{
    if i < s.len() && is_num_char(s[i]) {
        lemma_jnum_end(s, i + 1);
    }
}

/// Executable whitespace skipping, mirroring [`skip_ws`].
pub fn scan_ws(s: &Vec<char>, i: usize) -> (r: usize)
    requires
        i <= s@.len(),
    ensures
        r == skip_ws(s@, i as int),
        i <= r <= s@.len(),
{
    let n = s.len();
    let mut cur = i;
    while cur < n && (s[cur] == ' ' || s[cur] == '\t' || s[cur] == '\n' || s[cur] == '\r')
        invariant
            n == s@.len(),
            i <= cur <= n,
            skip_ws(s@, i as int) == skip_ws(s@, cur as int),
        decreases n - cur,
    {
        cur = cur + 1;
    }
    cur
}

/// Executable number-lexeme scanning, mirroring [`jnum_end`].
pub fn scan_num(s: &Vec<char>, i: usize) -> (r: usize)
    requires
        i <= s@.len(),
    ensures
        r == jnum_end(s@, i as int),
        i <= r <= s@.len(),
{
    let n = s.len();
    let mut cur = i;
    while cur < n
        invariant
            n == s@.len(),
            i <= cur <= n,
            jnum_end(s@, i as int) == jnum_end(s@, cur as int),
        decreases n - cur,
    {
        let c = s[cur];
        let v = c as u32;
        if !((48 <= v && v <= 57) || c == '-' || c == '+' || c == '.' || c == 'e' || c == 'E') {
            return cur;
        }
        cur = cur + 1;
    }
    cur
}

/// Prepends decoded characters to a pending string-scan outcome.
pub open spec fn jstr_prepend(pre: Seq<char>, o: Option<(Seq<char>, int)>) -> Option<
    (Seq<char>, int),
> {
    match o {
        None => None,
        Some((rest, end)) => Some((pre + rest, end)),
    }
}

/// Executable hex digit value, mirroring [`hexv`].
fn hex_char(c: char) -> (r: Option<u32>)
    ensures
        r == hexv(c),
{
    let n = c as u32;
    if 48 <= n && n <= 57 {
        Some(n - 48)
    } else if 97 <= n && n <= 102 {
        Some(n - 87)
    } else if 65 <= n && n <= 70 {
        Some(n - 55)
    } else {
        None
    }
}

/// Scans and decodes a string token body, mirroring [`jstr_body`].
pub fn scan_jstr(s: &Vec<char>, i: usize) -> (r: Option<(Vec<char>, usize)>)
    requires
        i <= s@.len(),
    ensures
        match r {
            Some((d, end)) => jstr_body(s@, i as int) == Some((d@, end as int)) && i < end
                <= s@.len(),
            None => jstr_body(s@, i as int) is None,
        },
{
    let n = s.len();
    let mut cur = i;
    let mut out: Vec<char> = Vec::new();
    proof {
        assert(out@ + Seq::<char>::empty() =~= out@);
    }
    loop
        invariant
            n == s@.len(),
            i <= cur <= n,
            jstr_body(s@, i as int) == jstr_prepend(out@, jstr_body(s@, cur as int)),
        decreases n - cur,
    {
        if cur >= n {
            return None;
        }
        let c = s[cur];
        if c == '"' {
            proof {
                assert(jstr_body(s@, cur as int) == Some((Seq::<char>::empty(), cur + 1)));
                assert(out@ + Seq::<char>::empty() =~= out@);
                lemma_jstr_body_bounds(s@, i as int);
            }
            return Some((out, cur + 1));
        }
        if c == '\\' {
            if cur + 1 >= n {
                return None;
            }
            let e = s[cur + 1];
            if e == 'u' {
                if n - cur < 6 {
                    return None;
                }
                let h1 = hex_char(s[cur + 2]);
                let h2 = hex_char(s[cur + 3]);
                let h3 = hex_char(s[cur + 4]);
                let h4 = hex_char(s[cur + 5]);
                match (h1, h2, h3, h4) {
                    (Some(v1), Some(v2), Some(v3), Some(v4)) => {
                        let code = v1 * 4096 + v2 * 256 + v3 * 16 + v4;
                        match char_from_code(code) {
                            Some(decoded) => {
                                proof {
                                    vstd::utf8::char_u32_cast(decoded, code);
                                    assert(jstr_body(s@, cur as int) == jstr_prepend(
                                        seq![code as char],
                                        jstr_body(s@, cur + 6),
                                    ));
                                }
                                out.push(decoded);
                                cur = cur + 6;
                                proof {
                                    assert(jstr_body(s@, i as int) == jstr_prepend(
                                        out@,
                                        jstr_body(s@, cur as int),
                                    )) by {
                                        let o = jstr_body(s@, cur as int);
                                        if o is Some {
                                            let rest = o.unwrap().0;
                                            assert(out@ + rest =~= out@.drop_last() + (seq![
                                                decoded,
                                            ] + rest));
                                        }
                                    };
                                }
                            },
                            None => {
                                return None;
                            },
                        }
                    },
                    _ => {
                        return None;
                    },
                }
            } else {
                let dec: Option<char> = if e == '"' {
                    Some('"')
                } else if e == '\\' {
                    Some('\\')
                } else if e == '/' {
                    Some('/')
                } else if e == 'b' {
                    Some(8u8 as char)
                } else if e == 'f' {
                    Some(12u8 as char)
                } else if e == 'n' {
                    Some('\n')
                } else if e == 'r' {
                    Some('\r')
                } else if e == 't' {
                    Some('\t')
                } else {
                    None
                };
                proof {
                    assert(dec == simple_escape(e));
                }
                match dec {
                    Some(d) => {
                        proof {
                            assert(jstr_body(s@, cur as int) == jstr_prepend(
                                seq![d],
                                jstr_body(s@, cur + 2),
                            ));
                        }
                        out.push(d);
                        cur = cur + 2;
                        proof {
                            assert(jstr_body(s@, i as int) == jstr_prepend(
                                out@,
                                jstr_body(s@, cur as int),
                            )) by {
                                let o = jstr_body(s@, cur as int);
                                if o is Some {
                                    let rest = o.unwrap().0;
                                    assert(out@ + rest =~= out@.drop_last() + (seq![d] + rest));
                                }
                            };
                        }
                    },
                    None => {
                        return None;
                    },
                }
            }
        } else if (c as u32) < 32 {
            return None;
        } else {
            proof {
                assert(jstr_body(s@, cur as int) == jstr_prepend(
                    seq![c],
                    jstr_body(s@, cur + 1),
                ));
            }
            out.push(c);
            cur = cur + 1;
            proof {
                assert(jstr_body(s@, i as int) == jstr_prepend(out@, jstr_body(s@, cur as int)))
                    by {
                    let o = jstr_body(s@, cur as int);
                    if o is Some {
                        let rest = o.unwrap().0;
                        assert(out@ + rest =~= out@.drop_last() + (seq![c] + rest));
                    }
                };
            }
        }
    }
}


/// A member value as the classifier sees it: decoded strings, number
/// lexemes, literals, or an opaque nested value.
pub enum JsonToken {
    JStr(String),
    JNum(String),
    JBool(bool),
    JNull,
    JNested,
}

/// Specification-level form of [`JsonToken`].
pub enum JTokenModel {
    JStr(Seq<char>),
    JNum(Seq<char>),
    JBool(bool),
    JNull,
    JNested,
}

impl View for JsonToken {
    type V = JTokenModel;

    open spec fn view(&self) -> JTokenModel {
        match self {
            JsonToken::JStr(x) => JTokenModel::JStr(x@),
            JsonToken::JNum(x) => JTokenModel::JNum(x@),
            JsonToken::JBool(b) => JTokenModel::JBool(*b),
            JsonToken::JNull => JTokenModel::JNull,
            JsonToken::JNested => JTokenModel::JNested,
        }
    }
}

/// One member of a top-level JSON object: the decoded key, the raw text of
/// the value, and the value's token.
pub struct JsonMember {
    pub key: String,
    pub raw: String,
    pub value: JsonToken,
}

/// Specification-level form of [`JsonMember`].
pub struct JMemberModel {
    pub key: Seq<char>,
    pub raw: Seq<char>,
    pub value: JTokenModel,
}

impl View for JsonMember {
    type V = JMemberModel;

    open spec fn view(&self) -> JMemberModel {
        JMemberModel { key: self.key@, raw: self.raw@, value: self.value@ }
    }
}

impl DeepView for JsonMember {
    type V = JMemberModel;

    open spec fn deep_view(&self) -> JMemberModel {
        self.view()
    }
}

/// Scans the token starting at `i`: its model and the position after it.
/// Nested objects and arrays are skipped, not decoded.
pub open spec fn token_at(s: Seq<char>, i: int) -> Option<(JTokenModel, int)>
    decreases s.len() - i, 0int,
{
    if !(0 <= i < s.len()) {
        None
    } else {
        let c = s[i];
        if c == '"' {
            match jstr_body(s, i + 1) {
                None => None,
                Some((d, e)) => if i < e <= s.len() {
                    Some((JTokenModel::JStr(d), e))
                } else {
                    None
                },
            }
        } else if c == '{' {
            match skip_obj(s, i + 1, true) {
                None => None,
                Some(e) => if i < e <= s.len() {
                    Some((JTokenModel::JNested, e))
                } else {
                    None
                },
            }
        } else if c == '[' {
            match skip_arr(s, i + 1, true) {
                None => None,
                Some(e) => if i < e <= s.len() {
                    Some((JTokenModel::JNested, e))
                } else {
                    None
                },
            }
        } else if c == 't' {
            if i + 4 <= s.len() && s[i + 1] == 'r' && s[i + 2] == 'u' && s[i + 3] == 'e' {
                Some((JTokenModel::JBool(true), i + 4))
            } else {
                None
            }
        } else if c == 'f' {
            if i + 5 <= s.len() && s[i + 1] == 'a' && s[i + 2] == 'l' && s[i + 3] == 's' && s[i
                + 4] == 'e' {
                Some((JTokenModel::JBool(false), i + 5))
            } else {
                None
            }
        } else if c == 'n' {
            if i + 4 <= s.len() && s[i + 1] == 'u' && s[i + 2] == 'l' && s[i + 3] == 'l' {
                Some((JTokenModel::JNull, i + 4))
            } else {
                None
            }
        } else if c == '-' || (48 <= c as u32 && c as u32 <= 57) {
            let e = jnum_end(s, i);
            if i < e <= s.len() {
                Some((JTokenModel::JNum(s.subrange(i, e)), e))
            } else {
                None
            }
        } else {
            None
        }
    }
}

/// Scans past the members of an object, starting just after `{` or a comma,
/// to the position after the closing `}`.
pub open spec fn skip_obj(s: Seq<char>, i: int, first: bool) -> Option<int>
    decreases s.len() - i, 1int,
{
    let j = skip_ws(s, i);
    if !(i <= j < s.len()) {
        None
    } else if first && s[j] == '}' {
        Some(j + 1)
    } else if s[j] != '"' {
        None
    } else {
        match jstr_body(s, j + 1) {
            None => None,
            Some((key, k)) => if !(j < k <= s.len()) {
                None
            } else {
                let k2 = skip_ws(s, k);
                if !(k <= k2 < s.len() && s[k2] == ':') {
                    None
                } else {
                    let v = skip_ws(s, k2 + 1);
                    if !(k2 < v < s.len()) {
                        None
                    } else {
                        match token_at(s, v) {
                            None => None,
                            Some((tok, e)) => if !(v < e <= s.len()) {
                                None
                            } else {
                                let f = skip_ws(s, e);
                                if !(e <= f < s.len()) {
                                    None
                                } else if s[f] == '}' {
                                    Some(f + 1)
                                } else if s[f] == ',' {
                                    skip_obj(s, f + 1, false)
                                } else {
                                    None
                                }
                            },
                        }
                    }
                }
            },
        }
    }
}

/// Scans past the elements of an array, starting just after `[` or a comma,
/// to the position after the closing `]`.
pub open spec fn skip_arr(s: Seq<char>, i: int, first: bool) -> Option<int>
    decreases s.len() - i, 1int,
{
    let j = skip_ws(s, i);
    if !(i <= j < s.len()) {
        None
    } else if first && s[j] == ']' {
        Some(j + 1)
    } else {
        match token_at(s, j) {
            None => None,
            Some((tok, e)) => if !(j <= e <= s.len()) {
                None
            } else {
                let f = skip_ws(s, e);
                if !(e <= f < s.len()) {
                    None
                } else if s[f] == ']' {
                    Some(f + 1)
                } else if s[f] == ',' {
                    skip_arr(s, f + 1, false)
                } else {
                    None
                }
            },
        }
    }
}

/// Collects the members of an object, starting just after `{` or a comma:
/// the member models and the position after the closing `}`.
pub open spec fn obj_members(s: Seq<char>, i: int, first: bool) -> Option<
    (Seq<JMemberModel>, int),
>
    decreases s.len() - i, 1int,
{
    let j = skip_ws(s, i);
    if !(i <= j < s.len()) {
        None
    } else if first && s[j] == '}' {
        Some((Seq::empty(), j + 1))
    } else if s[j] != '"' {
        None
    } else {
        match jstr_body(s, j + 1) {
            None => None,
            Some((key, k)) => if !(j < k <= s.len()) {
                None
            } else {
                let k2 = skip_ws(s, k);
                if !(k <= k2 < s.len() && s[k2] == ':') {
                    None
                } else {
                    let v = skip_ws(s, k2 + 1);
                    if !(k2 < v < s.len()) {
                        None
                    } else {
                        match token_at(s, v) {
                            None => None,
                            Some((tok, e)) => if !(v < e <= s.len()) {
                                None
                            } else {
                                let m = JMemberModel {
                                    key: key,
                                    raw: s.subrange(v, e),
                                    value: tok,
                                };
                                let f = skip_ws(s, e);
                                if !(e <= f < s.len()) {
                                    None
                                } else if s[f] == '}' {
                                    Some((seq![m], f + 1))
                                } else if s[f] == ',' {
                                    match obj_members(s, f + 1, false) {
                                        None => None,
                                        Some((rest, end)) => Some((seq![m] + rest, end)),
                                    }
                                } else {
                                    None
                                }
                            },
                        }
                    }
                }
            },
        }
    }
}

/// Collects the elements of an array, starting just after `[` or a comma:
/// each element's token and raw text, and the position after the closing
/// `]`.
pub open spec fn arr_elements(s: Seq<char>, i: int, first: bool) -> Option<
    (Seq<(JTokenModel, Seq<char>)>, int),
>
    decreases s.len() - i, 1int,
{
    let j = skip_ws(s, i);
    if !(i <= j < s.len()) {
        None
    } else if first && s[j] == ']' {
        Some((Seq::empty(), j + 1))
    } else {
        match token_at(s, j) {
            None => None,
            Some((tok, e)) => if !(j <= e <= s.len()) {
                None
            } else {
                let el = (tok, s.subrange(j, e));
                let f = skip_ws(s, e);
                if !(e <= f < s.len()) {
                    None
                } else if s[f] == ']' {
                    Some((seq![el], f + 1))
                } else if s[f] == ',' {
                    match arr_elements(s, f + 1, false) {
                        None => None,
                        Some((rest, end)) => Some((seq![el] + rest, end)),
                    }
                } else {
                    None
                }
            },
        }
    }
}

/// The members of `s` parsed as one JSON object with nothing but whitespace
/// around it.
pub open spec fn parse_obj_text(s: Seq<char>) -> Option<Seq<JMemberModel>> {
    let j = skip_ws(s, 0);
    if !(0 <= j < s.len() && s[j] == '{') {
        None
    } else {
        match obj_members(s, j + 1, true) {
            None => None,
            Some((ms, e)) => if skip_ws(s, e) == s.len() {
                Some(ms)
            } else {
                None
            },
        }
    }
}

/// The elements of `s` parsed as one JSON array with nothing but whitespace
/// around it.
pub open spec fn parse_arr_text(s: Seq<char>) -> Option<Seq<(JTokenModel, Seq<char>)>> {
    let j = skip_ws(s, 0);
    if !(0 <= j < s.len() && s[j] == '[') {
        None
    } else {
        match arr_elements(s, j + 1, true) {
            None => None,
            Some((els, e)) => if skip_ws(s, e) == s.len() {
                Some(els)
            } else {
                None
            },
        }
    }
}


/// One element of a JSON array: its token and its raw text.
pub struct JsonElem {
    pub value: JsonToken,
    pub raw: String,
}

impl View for JsonElem {
    type V = (JTokenModel, Seq<char>);

    open spec fn view(&self) -> (JTokenModel, Seq<char>) {
        (self.value@, self.raw@)
    }
}

impl DeepView for JsonElem {
    type V = (JTokenModel, Seq<char>);

    open spec fn deep_view(&self) -> (JTokenModel, Seq<char>) {
        self.view()
    }
}

/// Scans the token at `i`, mirroring [`token_at`].
pub fn scan_token(s: &Vec<char>, i: usize) -> (r: Option<(JsonToken, usize)>)
    requires
        i <= s@.len(),
    ensures
        match r {
            Some((t, e)) => token_at(s@, i as int) == Some((t@, e as int)) && i < e <= s@.len(),
            None => token_at(s@, i as int) is None,
        },
    decreases s@.len() - i, 0int,
{
    let n = s.len();
    if i >= n {
        return None;
    }
    let c = s[i];
    if c == '"' {
        match scan_jstr(s, i + 1) {
            None => None,
            Some((d, e)) => Some((JsonToken::JStr(chars_to_string(&d)), e)),
        }
    } else if c == '{' {
        match skip_obj_scan(s, i + 1, true) {
            None => None,
            Some(e) => Some((JsonToken::JNested, e)),
        }
    } else if c == '[' {
        match skip_arr_scan(s, i + 1, true) {
            None => None,
            Some(e) => Some((JsonToken::JNested, e)),
        }
    } else if c == 't' {
        if n - i >= 4 && s[i + 1] == 'r' && s[i + 2] == 'u' && s[i + 3] == 'e' {
            Some((JsonToken::JBool(true), i + 4))
        } else {
            None
        }
    } else if c == 'f' {
        if n - i >= 5 && s[i + 1] == 'a' && s[i + 2] == 'l' && s[i + 3] == 's' && s[i + 4]
            == 'e' {
            Some((JsonToken::JBool(false), i + 5))
        } else {
            None
        }
    } else if c == 'n' {
        if n - i >= 4 && s[i + 1] == 'u' && s[i + 2] == 'l' && s[i + 3] == 'l' {
            Some((JsonToken::JNull, i + 4))
        } else {
            None
        }
    } else if c == '-' || (48 <= c as u32 && c as u32 <= 57) {
        let e = scan_num(s, i);
        proof {
            lemma_jnum_end(s@, i + 1);
        }
        let raw = crate::strconv::chars_range_to_string(s, i, e);
        Some((JsonToken::JNum(raw), e))
    } else {
        None
    }
}

/// Scans past an object body, mirroring [`skip_obj`].
pub fn skip_obj_scan(s: &Vec<char>, i: usize, first: bool) -> (r: Option<usize>)
    requires
        i <= s@.len(),
    ensures
        match r {
            Some(e) => skip_obj(s@, i as int, first) == Some(e as int) && i < e <= s@.len(),
            None => skip_obj(s@, i as int, first) is None,
        },
    decreases s@.len() - i, 1int,
{
    let n = s.len();
    let j = scan_ws(s, i);
    if j >= n {
        return None;
    }
    if first && s[j] == '}' {
        return Some(j + 1);
    }
    if s[j] != '"' {
        return None;
    }
    match scan_jstr(s, j + 1) {
        None => None,
        Some((_key, k)) => {
            let k2 = scan_ws(s, k);
            if k2 >= n || s[k2] != ':' {
                return None;
            }
            let v = scan_ws(s, k2 + 1);
            if v >= n {
                return None;
            }
            match scan_token(s, v) {
                None => None,
                Some((_tok, e)) => {
                    let f = scan_ws(s, e);
                    if f >= n {
                        return None;
                    }
                    if s[f] == '}' {
                        Some(f + 1)
                    } else if s[f] == ',' {
                        skip_obj_scan(s, f + 1, false)
                    } else {
                        None
                    }
                },
            }
        },
    }
}

/// Scans past an array body, mirroring [`skip_arr`].
pub fn skip_arr_scan(s: &Vec<char>, i: usize, first: bool) -> (r: Option<usize>)
    requires
        i <= s@.len(),
    ensures
        match r {
            Some(e) => skip_arr(s@, i as int, first) == Some(e as int) && i < e <= s@.len(),
            None => skip_arr(s@, i as int, first) is None,
        },
    decreases s@.len() - i, 1int,
{
    let n = s.len();
    let j = scan_ws(s, i);
    if j >= n {
        return None;
    }
    if first && s[j] == ']' {
        return Some(j + 1);
    }
    match scan_token(s, j) {
        None => None,
        Some((_tok, e)) => {
            let f = scan_ws(s, e);
            if f >= n {
                return None;
            }
            if s[f] == ']' {
                Some(f + 1)
            } else if s[f] == ',' {
                skip_arr_scan(s, f + 1, false)
            } else {
                None
            }
        },
    }
}

/// Collects object members, mirroring [`obj_members`].
pub fn scan_members(s: &Vec<char>, i: usize, first: bool) -> (r: Option<(Vec<JsonMember>, usize)>)
    requires
        i <= s@.len(),
    ensures
        match r {
            Some((ms, e)) => obj_members(s@, i as int, first) == Some(
                (ms.deep_view(), e as int),
            ) && i < e <= s@.len(),
            None => obj_members(s@, i as int, first) is None,
        },
    decreases s@.len() - i, 1int,
{
    let n = s.len();
    let j = scan_ws(s, i);
    if j >= n {
        return None;
    }
    if first && s[j] == '}' {
        let ms: Vec<JsonMember> = Vec::new();
        proof {
            assert(ms.deep_view() =~= Seq::<JMemberModel>::empty());
        }
        return Some((ms, j + 1));
    }
    if s[j] != '"' {
        return None;
    }
    match scan_jstr(s, j + 1) {
        None => None,
        Some((keyv, k)) => {
            let k2 = scan_ws(s, k);
            if k2 >= n || s[k2] != ':' {
                return None;
            }
            let v = scan_ws(s, k2 + 1);
            if v >= n {
                return None;
            }
            match scan_token(s, v) {
                None => None,
                Some((tok, e)) => {
                    let raw = crate::strconv::chars_range_to_string(s, v, e);
                    let key = chars_to_string(&keyv);
                    let m = JsonMember { key, raw, value: tok };
                    let ghost mm = m.deep_view();
                    let f = scan_ws(s, e);
                    if f >= n {
                        return None;
                    }
                    if s[f] == '}' {
                        let mut ms: Vec<JsonMember> = Vec::new();
                        ms.push(m);
                        proof {
                            assert(ms.deep_view() =~= seq![mm]);
                        }
                        Some((ms, f + 1))
                    } else if s[f] == ',' {
                        match scan_members(s, f + 1, false) {
                            None => None,
                            Some((rest, end)) => {
                                let mut ms = rest;
                                let ghost restm = ms.deep_view();
                                ms.insert(0, m);
                                proof {
                                    assert(ms.deep_view() =~= seq![mm] + restm);
                                }
                                Some((ms, end))
                            },
                        }
                    } else {
                        None
                    }
                },
            }
        },
    }
}

/// Collects array elements, mirroring [`arr_elements`].
pub fn scan_elements(s: &Vec<char>, i: usize, first: bool) -> (r: Option<(Vec<JsonElem>, usize)>)
    requires
        i <= s@.len(),
    ensures
        match r {
            Some((els, e)) => arr_elements(s@, i as int, first) == Some(
                (els.deep_view(), e as int),
            ) && i < e <= s@.len(),
            None => arr_elements(s@, i as int, first) is None,
        },
    decreases s@.len() - i, 1int,
{
    let n = s.len();
    let j = scan_ws(s, i);
    if j >= n {
        return None;
    }
    if first && s[j] == ']' {
        let els: Vec<JsonElem> = Vec::new();
        proof {
            assert(els.deep_view() =~= Seq::<(JTokenModel, Seq<char>)>::empty());
        }
        return Some((els, j + 1));
    }
    match scan_token(s, j) {
        None => None,
        Some((tok, e)) => {
            let raw = crate::strconv::chars_range_to_string(s, j, e);
            let el = JsonElem { value: tok, raw };
            let ghost em = el.deep_view();
            let f = scan_ws(s, e);
            if f >= n {
                return None;
            }
            if s[f] == ']' {
                let mut els: Vec<JsonElem> = Vec::new();
                els.push(el);
                proof {
                    assert(els.deep_view() =~= seq![em]);
                }
                Some((els, f + 1))
            } else if s[f] == ',' {
                match scan_elements(s, f + 1, false) {
                    None => None,
                    Some((rest, end)) => {
                        let mut els = rest;
                        let ghost restm = els.deep_view();
                        els.insert(0, el);
                        proof {
                            assert(els.deep_view() =~= seq![em] + restm);
                        }
                        Some((els, end))
                    },
                }
            } else {
                None
            }
        },
    }
}

/// Parses `s` as one JSON object, mirroring [`parse_obj_text`].
pub fn parse_obj(s: &Vec<char>) -> (r: Option<Vec<JsonMember>>)
    ensures
        match r {
            Some(ms) => parse_obj_text(s@) == Some(ms.deep_view()),
            None => parse_obj_text(s@) is None,
        },
{
    let n = s.len();
    let j = scan_ws(s, 0);
    if j >= n || s[j] != '{' {
        return None;
    }
    match scan_members(s, j + 1, true) {
        None => None,
        Some((ms, e)) => {
            let f = scan_ws(s, e);
            if f == n {
                Some(ms)
            } else {
                None
            }
        },
    }
}

/// Parses `s` as one JSON array, mirroring [`parse_arr_text`].
pub fn parse_arr(s: &Vec<char>) -> (r: Option<Vec<JsonElem>>)
    ensures
        match r {
            Some(els) => parse_arr_text(s@) == Some(els.deep_view()),
            None => parse_arr_text(s@) is None,
        },
{
    let n = s.len();
    let j = scan_ws(s, 0);
    if j >= n || s[j] != '[' {
        return None;
    }
    match scan_elements(s, j + 1, true) {
        None => None,
        Some((els, e)) => {
            let f = scan_ws(s, e);
            if f == n {
                Some(els)
            } else {
                None
            }
        },
    }
}

} // verus!
