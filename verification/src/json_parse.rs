//! A recursive-descent parser from JSON text to [`JsonValue`].
//!
//! The parser accepts standard JSON: the six value kinds, string escapes
//! including surrogate pairs, and numbers in their usual grammar. A number is
//! kept as the exact slice of text that denoted it.

use vstd::prelude::*;
use vstd::string::StrSliceExecFns;
use vstd::string::StringExecFns;

use crate::json::JsonModel;
use crate::json::JsonValue;
use crate::json::char_from_u32;
use crate::json::lemma_model_fields;
use crate::json::lemma_model_seq;
use crate::json::model_fields;
use crate::json::model_seq;
use crate::json::push_char;

verus! {

/// The whitespace characters that JSON allows between tokens.
pub open spec fn is_ws_char(c: char) -> bool {
    c == ' ' || c == '\t' || c == '\n' || c == '\r'
}

/// The exec counterpart of `is_ws_char`.
fn is_ws(c: char) -> (r: bool)
    ensures
        r == is_ws_char(c),
{
    c == ' ' || c == '\t' || c == '\n' || c == '\r'
}

/// A decimal digit.
pub open spec fn is_digit_char(c: char) -> bool {
    48 <= (c as u32) <= 57
}

/// The exec counterpart of `is_digit_char`.
fn is_digit(c: char) -> (r: bool)
    ensures
        r == is_digit_char(c),
{
    let u = c as u32;
    48 <= u && u <= 57
}

/// The value of a hexadecimal digit, upper or lower case.
pub open spec fn hex_val_of(c: char) -> Option<u32> {
    let u = c as u32;
    if 48 <= u && u <= 57 {
        Option::Some((u - 48) as u32)
    } else if 97 <= u && u <= 102 {
        Option::Some((u - 97 + 10) as u32)
    } else if 65 <= u && u <= 70 {
        Option::Some((u - 65 + 10) as u32)
    } else {
        Option::None
    }
}

/// The exec counterpart of `hex_val_of`.
fn hex_val(c: char) -> (r: Option<u32>)
    ensures
        r == hex_val_of(c),
        r matches Some(v) ==> v < 16,
{
    let u = c as u32;
    if 48 <= u && u <= 57 {
        Some(u - 48)
    } else if 97 <= u && u <= 102 {
        Some(u - 97 + 10)
    } else if 65 <= u && u <= 70 {
        Some(u - 65 + 10)
    } else {
        None
    }
}

/// The first index at or after `i` that holds no whitespace.
pub open spec fn ws_end(s: Seq<char>, i: int) -> int
    decreases s.len() - i,
{
    if 0 <= i < s.len() && is_ws_char(s[i]) {
        ws_end(s, i + 1)
    } else {
        i
    }
}

/// The first index at or after `i` that holds no decimal digit.
pub open spec fn digits_end(s: Seq<char>, i: int) -> int
    decreases s.len() - i,
{
    if 0 <= i < s.len() && is_digit_char(s[i]) {
        digits_end(s, i + 1)
    } else {
        i
    }
}

/// Four hexadecimal digits starting at `i`, as one value.
pub open spec fn hex4_at(s: Seq<char>, i: int) -> Option<u32> {
    if 0 <= i && i + 4 <= s.len() {
        match (hex_val_of(s[i]), hex_val_of(s[i + 1]), hex_val_of(s[i + 2]), hex_val_of(
            s[i + 3],
        )) {
            (Option::Some(a), Option::Some(b), Option::Some(c), Option::Some(d)) => Option::Some(
                (a * 4096 + b * 256 + c * 16 + d) as u32,
            ),
            _ => Option::None,
        }
    } else {
        Option::None
    }
}

/// The decoded content and end of a string literal's body, the opening
/// quote already behind `j`: plain characters, the short escapes, and
/// `\uXXXX` with surrogate pairs; an unescaped control character or an
/// unterminated literal is rejected.
pub open spec fn string_body_at(s: Seq<char>, j: int) -> Option<(Seq<char>, int)>
    decreases s.len() - j,
{
    if !(0 <= j < s.len()) {
        Option::None
    } else if s[j] == '"' {
        Option::Some((Seq::empty(), j + 1))
    } else if s[j] == '\\' {
        if j + 1 >= s.len() {
            Option::None
        } else {
            let e = s[j + 1];
            if e == '"' || e == '\\' || e == '/' || e == 'b' || e == 'f' || e == 'n' || e == 'r'
                || e == 't' {
                let c = escape_meaning(e);
                match string_body_at(s, j + 2) {
                    Option::Some(p) => Option::Some((seq![c] + p.0, p.1)),
                    Option::None => Option::None,
                }
            } else if e == 'u' {
                if s.len() - j < 6 {
                    Option::None
                } else {
                    match hex4_at(s, j + 2) {
                        Option::None => Option::None,
                        Option::Some(code) => if 0xD800 <= code && code < 0xDC00 {
                            if s.len() - j < 12 {
                                Option::None
                            } else if s[j + 6] != '\\' || s[j + 7] != 'u' {
                                Option::None
                            } else {
                                match hex4_at(s, j + 8) {
                                    Option::None => Option::None,
                                    Option::Some(low) => if !(0xDC00 <= low && low < 0xE000) {
                                        Option::None
                                    } else {
                                        let cp = (0x10000 + (code - 0xD800) * 0x400 + (low
                                            - 0xDC00)) as u32;
                                        match string_body_at(s, j + 12) {
                                            Option::Some(p) => Option::Some(
                                                (seq![cp as char] + p.0, p.1),
                                            ),
                                            Option::None => Option::None,
                                        }
                                    },
                                }
                            }
                        } else if 0xDC00 <= code && code < 0xE000 {
                            Option::None
                        } else {
                            match string_body_at(s, j + 6) {
                                Option::Some(p) => Option::Some((seq![code as char] + p.0, p.1)),
                                Option::None => Option::None,
                            }
                        },
                    }
                }
            } else {
                Option::None
            }
        }
    } else if (s[j] as u32) < 0x20 {
        Option::None
    } else {
        match string_body_at(s, j + 1) {
            Option::Some(p) => Option::Some((seq![s[j]] + p.0, p.1)),
            Option::None => Option::None,
        }
    }
}

/// What a short escape stands for.
pub open spec fn escape_meaning(e: char) -> char {
    if e == 'b' {
        '\u{8}'
    } else if e == 'f' {
        '\u{c}'
    } else if e == 'n' {
        '\n'
    } else if e == 'r' {
        '\r'
    } else if e == 't' {
        '\t'
    } else {
        e
    }
}

/// A complete string literal starting at `i`.
pub open spec fn string_at(s: Seq<char>, i: int) -> Option<(Seq<char>, int)> {
    if 0 <= i < s.len() && s[i] == '"' {
        string_body_at(s, i + 1)
    } else {
        Option::None
    }
}

/// The exponent and closing of a number whose text began at `i` and whose
/// mantissa ends at `j`.
pub open spec fn number_end_at(s: Seq<char>, i: int, j: int) -> Option<(Seq<char>, int)> {
    if j < s.len() && (s[j] == 'e' || s[j] == 'E') {
        let j4 = if j + 1 < s.len() && (s[j + 1] == '+' || s[j + 1] == '-') {
            j + 2
        } else {
            j + 1
        };
        if j4 >= s.len() || !is_digit_char(s[j4]) {
            Option::None
        } else {
            Option::Some((s.subrange(i, digits_end(s, j4)), digits_end(s, j4)))
        }
    } else {
        Option::Some((s.subrange(i, j), j))
    }
}

/// A number starting at `i`, kept as its exact text: optional minus, `0` or
/// a nonzero integer part, optional fraction, optional exponent.
pub open spec fn number_at(s: Seq<char>, i: int) -> Option<(Seq<char>, int)> {
    if !(0 <= i < s.len()) {
        Option::None
    } else {
        let j1 = if s[i] == '-' {
            i + 1
        } else {
            i
        };
        if j1 >= s.len() {
            Option::None
        } else {
            let first = s[j1];
            if first == '0' || is_digit_char(first) {
                let j2 = if first == '0' {
                    j1 + 1
                } else {
                    digits_end(s, j1 + 1)
                };
                if j2 < s.len() && s[j2] == '.' {
                    if j2 + 1 >= s.len() || !is_digit_char(s[j2 + 1]) {
                        Option::None
                    } else {
                        number_end_at(s, i, digits_end(s, j2 + 1))
                    }
                } else {
                    number_end_at(s, i, j2)
                }
            } else {
                Option::None
            }
        }
    }
}

/// One JSON value at `i`, leading whitespace included; yields its meaning
/// and the index just past it. The index guards only restate what every
/// parse of a shorter suffix already satisfies.
pub open spec fn value_at(s: Seq<char>, i: int) -> Option<(JsonModel, int)>
    decreases s.len() - i, 0int,
{
    let i0 = ws_end(s, i);
    if !(i <= i0 && i0 < s.len()) {
        Option::None
    } else {
        let c = s[i0];
        if c == '"' {
            match string_at(s, i0) {
                Option::Some(p) => Option::Some((JsonModel::Str(p.0), p.1)),
                Option::None => Option::None,
            }
        } else if c == '-' || is_digit_char(c) {
            match number_at(s, i0) {
                Option::Some(p) => Option::Some((JsonModel::Num(p.0), p.1)),
                Option::None => Option::None,
            }
        } else if c == 't' {
            if i0 + 4 <= s.len() && s.subrange(i0, i0 + 4) == "true"@ {
                Option::Some((JsonModel::Bool(true), i0 + 4))
            } else {
                Option::None
            }
        } else if c == 'f' {
            if i0 + 5 <= s.len() && s.subrange(i0, i0 + 5) == "false"@ {
                Option::Some((JsonModel::Bool(false), i0 + 5))
            } else {
                Option::None
            }
        } else if c == 'n' {
            if i0 + 4 <= s.len() && s.subrange(i0, i0 + 4) == "null"@ {
                Option::Some((JsonModel::Null, i0 + 4))
            } else {
                Option::None
            }
        } else if c == '[' {
            let j = ws_end(s, i0 + 1);
            if j < s.len() && s[j] == ']' {
                Option::Some((JsonModel::Arr(Seq::empty()), j + 1))
            } else if !(i0 < j && j <= s.len()) {
                Option::None
            } else {
                match items_at(s, j) {
                    Option::Some(p) => Option::Some((JsonModel::Arr(p.0), p.1)),
                    Option::None => Option::None,
                }
            }
        } else if c == '{' {
            let j = ws_end(s, i0 + 1);
            if j < s.len() && s[j] == '}' {
                Option::Some((JsonModel::Obj(Seq::empty()), j + 1))
            } else if !(i0 < j && j <= s.len()) {
                Option::None
            } else {
                match members_at(s, j) {
                    Option::Some(p) => Option::Some((JsonModel::Obj(p.0), p.1)),
                    Option::None => Option::None,
                }
            }
        } else {
            Option::None
        }
    }
}

/// The elements of a non-empty array from `i` to just past its `]`.
pub open spec fn items_at(s: Seq<char>, i: int) -> Option<(Seq<JsonModel>, int)>
    decreases s.len() - i, 1int,
{
    match value_at(s, i) {
        Option::None => Option::None,
        Option::Some(p) => {
            let v = p.0;
            let j = p.1;
            if !(i < j && j <= s.len()) {
                Option::None
            } else {
                let j2 = ws_end(s, j);
                if !(j <= j2 && j2 < s.len()) {
                    Option::None
                } else if s[j2] == ',' {
                    match items_at(s, j2 + 1) {
                        Option::Some(q) => Option::Some((seq![v] + q.0, q.1)),
                        Option::None => Option::None,
                    }
                } else if s[j2] == ']' {
                    Option::Some((seq![v], j2 + 1))
                } else {
                    Option::None
                }
            }
        },
    }
}

/// The members of a non-empty object from `i` to just past its `}`.
pub open spec fn members_at(s: Seq<char>, i: int) -> Option<(Seq<(Seq<char>, JsonModel)>, int)>
    decreases s.len() - i, 1int,
{
    if !(0 <= i && i < s.len()) {
        Option::None
    } else {
        match string_at(s, i) {
            Option::None => Option::None,
            Option::Some(kp) => {
                let key = kp.0;
                let p = kp.1;
                if !(i < p && p <= s.len()) {
                    Option::None
                } else {
                    let p2 = ws_end(s, p);
                    if !(p <= p2) {
                        Option::None
                    } else if p2 >= s.len() || s[p2] != ':' {
                        Option::None
                    } else {
                        match value_at(s, p2 + 1) {
                            Option::None => Option::None,
                            Option::Some(vp) => {
                                let v = vp.0;
                                let q = vp.1;
                                if !(p2 + 1 < q && q <= s.len()) {
                                    Option::None
                                } else {
                                    let q2 = ws_end(s, q);
                                    if !(q <= q2 && q2 < s.len()) {
                                        Option::None
                                    } else if s[q2] == ',' {
                                        let nx = ws_end(s, q2 + 1);
                                        if !(q2 + 1 <= nx && nx <= s.len()) {
                                            Option::None
                                        } else {
                                            match members_at(s, nx) {
                                                Option::Some(q3) => Option::Some(
                                                    (seq![(key, v)] + q3.0, q3.1),
                                                ),
                                                Option::None => Option::None,
                                            }
                                        }
                                    } else if s[q2] == '}' {
                                        Option::Some((seq![(key, v)], q2 + 1))
                                    } else {
                                        Option::None
                                    }
                                }
                            },
                        }
                    }
                }
            },
        }
    }
}

/// A complete JSON document: one value, possibly surrounded by whitespace,
/// with nothing after it.
pub open spec fn json_document(s: Seq<char>) -> Option<JsonModel> {
    match value_at(s, 0) {
        Option::Some(p) => if ws_end(s, p.1) == s.len() {
            Option::Some(p.0)
        } else {
            Option::None
        },
        Option::None => Option::None,
    }
}

/// The index of the first non-whitespace character at or after `i`.
fn skip_ws(s: &str, n: usize, i: usize) -> (j: usize)
    requires
        n == s@.len(),
        i <= n,
    ensures
        i <= j <= n,
        j == ws_end(s@, i as int),
        forall|k: int| i <= k < j ==> is_ws_char(s@[k]),
        j < n ==> !is_ws_char(s@[j as int]),
{
    let mut j: usize = i;
    while j < n
        invariant
            n == s@.len(),
            i <= j <= n,
            ws_end(s@, i as int) == ws_end(s@, j as int),
            forall|k: int| i <= k < j ==> is_ws_char(s@[k]),
        decreases n - j,
    {
        if !is_ws(s.get_char(j)) {
            return j;
        }
        j = j + 1;
    }
    j
}

/// Reads exactly four hexadecimal digits starting at `i`.
fn parse_hex4(s: &str, n: usize, i: usize) -> (r: Option<u32>)
    requires
        n == s@.len(),
        i + 4 <= n,
    ensures
        r == hex4_at(s@, i as int),
        r matches Some(v) ==> v < 0x10000,
{
    let d0 = match hex_val(s.get_char(i)) {
        Some(v) => v,
        None => {
            return None;
        },
    };
    let d1 = match hex_val(s.get_char(i + 1)) {
        Some(v) => v,
        None => {
            return None;
        },
    };
    let d2 = match hex_val(s.get_char(i + 2)) {
        Some(v) => v,
        None => {
            return None;
        },
    };
    let d3 = match hex_val(s.get_char(i + 3)) {
        Some(v) => v,
        None => {
            return None;
        },
    };
    Some(d0 * 4096 + d1 * 256 + d2 * 16 + d3)
}

/// One character of a string body decoded: moving past it extends the
/// collected content and leaves the relation to the whole literal standing.
proof fn lemma_string_step(
    s: Seq<char>,
    jold: int,
    jn: int,
    ch: char,
    pre: Seq<char>,
    cur: Seq<char>,
    target: Option<(Seq<char>, int)>,
)
    requires
        cur == pre + seq![ch],
        match string_body_at(s, jold) {
            Option::Some(p) => target == Option::Some((pre + p.0, p.1)),
            Option::None => target is None,
        },
        string_body_at(s, jold) == (match string_body_at(s, jn) {
            Option::Some(p) => Option::Some((seq![ch] + p.0, p.1)),
            Option::None => Option::<(Seq<char>, int)>::None,
        }),
    ensures
        match string_body_at(s, jn) {
            Option::Some(p) => target == Option::Some((cur + p.0, p.1)),
            Option::None => target is None,
        },
{
    if string_body_at(s, jn) is Some {
        let p = string_body_at(s, jn)->Some_0;
        assert(pre + (seq![ch] + p.0) =~= cur + p.0);
    }
}

/// Reads a string literal whose opening quote stands at `i`; yields the
/// decoded content and the index just past the closing quote.
#[verifier::rlimit(60)]
fn parse_string_at(s: &str, n: usize, i: usize) -> (r: Option<(String, usize)>)
    requires
        n == s@.len(),
        i < n,
    ensures
        r matches Some(p) ==> i < p.1 <= n,
        match r {
            Some(p) => string_at(s@, i as int) == Option::Some((p.0@, p.1 as int)),
            None => string_at(s@, i as int) is None,
        },
{
    if s.get_char(i) != '"' {
        return None;
    }
    let mut content = String::new();
    let mut j: usize = i + 1;
    proof {
        if string_body_at(s@, i as int + 1) is Some {
            let p = string_body_at(s@, i as int + 1)->Some_0;
            assert(content@ + p.0 =~= p.0);
        }
    }
    while j < n
        invariant
            n == s@.len(),
            i < j <= n,
            string_at(s@, i as int) == (match string_body_at(s@, j as int) {
                Option::Some(p) => Option::Some((content@ + p.0, p.1)),
                Option::None => Option::<(Seq<char>, int)>::None,
            }),
        decreases n - j,
    {
        let c = s.get_char(j);
        let ghost jold: int = j as int;
        let ghost pre = content@;
        if c == '"' {
            proof {
                assert(content@ + Seq::<char>::empty() =~= content@);
            }
            return Some((content, j + 1));
        } else if c == '\\' {
            if j + 1 >= n {
                return None;
            }
            let e = s.get_char(j + 1);
            if e == '"' || e == '\\' || e == '/' || e == 'b' || e == 'f' || e == 'n' || e == 'r'
                || e == 't' {
                let decoded: char = if e == 'b' {
                    '\u{8}'
                } else if e == 'f' {
                    '\u{c}'
                } else if e == 'n' {
                    '\n'
                } else if e == 'r' {
                    '\r'
                } else if e == 't' {
                    '\t'
                } else {
                    e
                };
                push_char(&mut content, decoded);
                j = j + 2;
                proof {
                    assert(decoded == escape_meaning(e));
                    lemma_string_step(
                        s@,
                        jold,
                        j as int,
                        decoded,
                        pre,
                        content@,
                        string_at(s@, i as int),
                    );
                }
            } else if e == 'u' {
                if n - j < 6 {
                    return None;
                }
                let code = match parse_hex4(s, n, j + 2) {
                    Some(v) => v,
                    None => {
                        return None;
                    },
                };
                if 0xD800 <= code && code < 0xDC00 {
                    // A high surrogate must be followed by an escaped low
                    // surrogate; together they name one code point.
                    if n - j < 12 {
                        return None;
                    }
                    if s.get_char(j + 6) != '\\' || s.get_char(j + 7) != 'u' {
                        return None;
                    }
                    let low = match parse_hex4(s, n, j + 8) {
                        Some(v) => v,
                        None => {
                            return None;
                        },
                    };
                    if !(0xDC00 <= low && low < 0xE000) {
                        return None;
                    }
                    let cp = 0x10000 + (code - 0xD800) * 0x400 + (low - 0xDC00);
                    let c2 = match char_from_u32(cp) {
                        Some(c2) => c2,
                        None => {
                            proof {
                                assert(false);
                            }
                            return None;
                        },
                    };
                    push_char(&mut content, c2);
                    j = j + 12;
                    proof {
                        vstd::utf8::char_u32_cast(c2, cp);
                        lemma_string_step(
                            s@,
                            jold,
                            j as int,
                            c2,
                            pre,
                            content@,
                            string_at(s@, i as int),
                        );
                    }
                } else if 0xDC00 <= code && code < 0xE000 {
                    return None;
                } else {
                    let c2 = match char_from_u32(code) {
                        Some(c2) => c2,
                        None => {
                            proof {
                                assert(false);
                            }
                            return None;
                        },
                    };
                    push_char(&mut content, c2);
                    j = j + 6;
                    proof {
                        vstd::utf8::char_u32_cast(c2, code);
                        lemma_string_step(
                            s@,
                            jold,
                            j as int,
                            c2,
                            pre,
                            content@,
                            string_at(s@, i as int),
                        );
                    }
                }
            } else {
                return None;
            }
        } else if (c as u32) < 0x20 {
            return None;
        } else {
            push_char(&mut content, c);
            j = j + 1;
            proof {
                lemma_string_step(s@, jold, j as int, c, pre, content@, string_at(s@, i as int));
            }
        }
    }
    None
}

/// Reads a number whose first character stands at `i`; yields its exact text
/// and the index just past it.
fn parse_number_at(s: &str, n: usize, i: usize) -> (r: Option<(String, usize)>)
    requires
        n == s@.len(),
        i < n,
    ensures
        r matches Some(p) ==> i < p.1 <= n && p.0@ == s@.subrange(i as int, p.1 as int),
        match r {
            Some(p) => number_at(s@, i as int) == Option::Some((p.0@, p.1 as int)),
            None => number_at(s@, i as int) is None,
        },
{
    let mut j: usize = i;
    if s.get_char(j) == '-' {
        j = j + 1;
    }
    let ghost j1: int = j as int;
    if j >= n {
        return None;
    }
    let first = s.get_char(j);
    if first == '0' {
        j = j + 1;
    } else if is_digit(first) {
        j = j + 1;
        while j < n && is_digit(s.get_char(j))
            invariant
                n == s@.len(),
                i < j <= n,
                digits_end(s@, j1 + 1) == digits_end(s@, j as int),
            decreases n - j,
        {
            j = j + 1;
        }
        proof {
            assert(digits_end(s@, j as int) == j as int);
        }
    } else {
        return None;
    }
    let ghost jm0: int = j as int;
    proof {
        assert(jm0 == (if first == '0' {
            j1 + 1
        } else {
            digits_end(s@, j1 + 1)
        }));
    }
    if j < n && s.get_char(j) == '.' {
        j = j + 1;
        if j >= n || !is_digit(s.get_char(j)) {
            return None;
        }
        let ghost jf: int = j as int;
        while j < n && is_digit(s.get_char(j))
            invariant
                n == s@.len(),
                i < j <= n,
                digits_end(s@, jf) == digits_end(s@, j as int),
            decreases n - j,
        {
            j = j + 1;
        }
        proof {
            assert(digits_end(s@, j as int) == j as int);
        }
    }
    let ghost jm: int = j as int;
    proof {
        assert(number_at(s@, i as int) == number_end_at(s@, i as int, jm));
    }
    if j < n && (s.get_char(j) == 'e' || s.get_char(j) == 'E') {
        j = j + 1;
        if j < n && (s.get_char(j) == '+' || s.get_char(j) == '-') {
            j = j + 1;
        }
        if j >= n || !is_digit(s.get_char(j)) {
            return None;
        }
        let ghost j4: int = j as int;
        while j < n && is_digit(s.get_char(j))
            invariant
                n == s@.len(),
                i < j <= n,
                digits_end(s@, j4) == digits_end(s@, j as int),
            decreases n - j,
        {
            j = j + 1;
        }
        proof {
            assert(digits_end(s@, j as int) == j as int);
        }
    }
    proof {
        assert(number_at(s@, i as int) == Option::Some(
            (s@.subrange(i as int, j as int), j as int),
        ));
    }
    let text = s.substring_char(i, j);
    Some((String::from_str(text), j))
}

/// Checks that the characters of `word` stand at `i`.
fn expect_word(s: &str, n: usize, i: usize, word: &str) -> (r: bool)
    requires
        n == s@.len(),
        i <= n,
    ensures
        r == (i + word@.len() <= n && s@.subrange(i as int, i as int + word@.len() as int)
            == word@),
{
    let w: usize = word.unicode_len();
    if n - i < w {
        return false;
    }
    let mut k: usize = 0;
    while k < w
        invariant
            n == s@.len(),
            w == word@.len(),
            i + w <= n,
            k <= w,
            forall|m: int| 0 <= m < k ==> s@[i + m] == word@[m],
        decreases w - k,
    {
        if s.get_char(i + k) != word.get_char(k) {
            proof {
                assert(s@.subrange(i as int, i as int + w as int)[k as int] == s@[i + k]);
            }
            return false;
        }
        k = k + 1;
    }
    proof {
        assert(s@.subrange(i as int, i as int + w as int) =~= word@);
    }
    true
}

/// Reads one JSON value, skipping leading whitespace; yields the value and
/// the index just past it, in exact agreement with the grammar `value_at`.
#[verifier::rlimit(80)]
fn parse_value(s: &str, n: usize, i: usize) -> (r: Option<(JsonValue, usize)>)
    requires
        n == s@.len(),
        i <= n,
    ensures
        r matches Some(p) ==> i < p.1 <= n,
        r is Some ==> exists|k: int| i <= k < n && !is_ws_char(#[trigger] s@[k]),
        match r {
            Some(p) => value_at(s@, i as int) == Option::Some((p.0@, p.1 as int)),
            None => value_at(s@, i as int) is None,
        },
    decreases n - i,
{
    let i0 = skip_ws(s, n, i);
    if i0 >= n {
        return None;
    }
    let c = s.get_char(i0);
    proof {
        assert(i <= i0 < n && !is_ws_char(s@[i0 as int]));
    }
    if c == '"' {
        match parse_string_at(s, n, i0) {
            Some((t, j)) => Some((JsonValue::Str(t), j)),
            None => None,
        }
    } else if c == '-' || is_digit(c) {
        match parse_number_at(s, n, i0) {
            Some((t, j)) => Some((JsonValue::Num(t), j)),
            None => None,
        }
    } else if c == 't' {
        proof {
            reveal_strlit("true");
        }
        if expect_word(s, n, i0, "true") {
            Some((JsonValue::Bool(true), i0 + 4))
        } else {
            None
        }
    } else if c == 'f' {
        proof {
            reveal_strlit("false");
        }
        if expect_word(s, n, i0, "false") {
            Some((JsonValue::Bool(false), i0 + 5))
        } else {
            None
        }
    } else if c == 'n' {
        proof {
            reveal_strlit("null");
        }
        if expect_word(s, n, i0, "null") {
            Some((JsonValue::Null, i0 + 4))
        } else {
            None
        }
    } else if c == '[' {
        let mut j: usize = skip_ws(s, n, i0 + 1);
        if j < n && s.get_char(j) == ']' {
            let empty_elems: Vec<JsonValue> = Vec::new();
            proof {
                lemma_model_seq(empty_elems@);
            }
            return Some((JsonValue::Arr(empty_elems), j + 1));
        }
        let ghost start: int = j as int;
        let mut elems: Vec<JsonValue> = Vec::new();
        proof {
            lemma_model_seq(elems@);
            assert(value_at(s@, i as int) == (match items_at(s@, start) {
                Option::Some(p) => Option::Some((JsonModel::Arr(p.0), p.1)),
                Option::None => Option::<(JsonModel, int)>::None,
            }));
            if items_at(s@, start) is Some {
                let p = items_at(s@, start)->Some_0;
                assert(model_seq(elems@) + p.0 =~= p.0);
            }
        }
        loop
            invariant
                n == s@.len(),
                i <= i0 < n,
                i0 < j <= n,
                value_at(s@, i as int) == (match items_at(s@, start) {
                    Option::Some(p) => Option::Some((JsonModel::Arr(p.0), p.1)),
                    Option::None => Option::<(JsonModel, int)>::None,
                }),
                match items_at(s@, j as int) {
                    Option::Some(p) => items_at(s@, start) == Option::Some(
                        (model_seq(elems@) + p.0, p.1),
                    ),
                    Option::None => items_at(s@, start) is None,
                },
            decreases n - j,
        {
            let ghost jold: int = j as int;
            let ghost mse = model_seq(elems@);
            proof {
                lemma_model_seq(elems@);
            }
            let (v, j2) = match parse_value(s, n, j) {
                Some(p) => p,
                None => {
                    return None;
                },
            };
            let ghost vm = v@;
            elems.push(v);
            proof {
                lemma_model_seq(elems@);
                assert(model_seq(elems@) =~= mse.push(vm));
            }
            let j3 = skip_ws(s, n, j2);
            if j3 >= n {
                return None;
            }
            let sep = s.get_char(j3);
            if sep == ',' {
                j = j3 + 1;
                proof {
                    if items_at(s@, j as int) is Some {
                        let p = items_at(s@, j as int)->Some_0;
                        assert(items_at(s@, jold) == Option::Some((seq![vm] + p.0, p.1)));
                        assert(mse + (seq![vm] + p.0) =~= model_seq(elems@) + p.0);
                    } else {
                        assert(items_at(s@, jold) is None);
                    }
                }
            } else if sep == ']' {
                proof {
                    assert(items_at(s@, jold) == Option::Some((seq![vm], j3 as int + 1)));
                    assert(mse + seq![vm] =~= model_seq(elems@));
                }
                return Some((JsonValue::Arr(elems), j3 + 1));
            } else {
                return None;
            }
        }
    } else if c == '{' {
        let mut j: usize = skip_ws(s, n, i0 + 1);
        if j < n && s.get_char(j) == '}' {
            let empty_fields: Vec<(String, JsonValue)> = Vec::new();
            proof {
                lemma_model_fields(empty_fields@);
            }
            return Some((JsonValue::Obj(empty_fields), j + 1));
        }
        let ghost start: int = j as int;
        let mut fields: Vec<(String, JsonValue)> = Vec::new();
        proof {
            lemma_model_fields(fields@);
            assert(value_at(s@, i as int) == (match members_at(s@, start) {
                Option::Some(p) => Option::Some((JsonModel::Obj(p.0), p.1)),
                Option::None => Option::<(JsonModel, int)>::None,
            }));
            if members_at(s@, start) is Some {
                let p = members_at(s@, start)->Some_0;
                assert(model_fields(fields@) + p.0 =~= p.0);
            }
        }
        loop
            invariant
                n == s@.len(),
                i <= i0 < n,
                i0 < j <= n,
                value_at(s@, i as int) == (match members_at(s@, start) {
                    Option::Some(p) => Option::Some((JsonModel::Obj(p.0), p.1)),
                    Option::None => Option::<(JsonModel, int)>::None,
                }),
                match members_at(s@, j as int) {
                    Option::Some(p) => members_at(s@, start) == Option::Some(
                        (model_fields(fields@) + p.0, p.1),
                    ),
                    Option::None => members_at(s@, start) is None,
                },
            decreases n - j,
        {
            let ghost jold: int = j as int;
            let ghost msf = model_fields(fields@);
            proof {
                lemma_model_fields(fields@);
            }
            if j >= n {
                return None;
            }
            let (key, p) = match parse_string_at(s, n, j) {
                Some(q) => q,
                None => {
                    return None;
                },
            };
            let p2 = skip_ws(s, n, p);
            if p2 >= n || s.get_char(p2) != ':' {
                return None;
            }
            let (v, q) = match parse_value(s, n, p2 + 1) {
                Some(q2) => q2,
                None => {
                    return None;
                },
            };
            let ghost km = key@;
            let ghost vm = v@;
            fields.push((key, v));
            proof {
                lemma_model_fields(fields@);
                assert(model_fields(fields@) =~= msf.push((km, vm)));
            }
            let q2 = skip_ws(s, n, q);
            if q2 >= n {
                return None;
            }
            let sep = s.get_char(q2);
            if sep == ',' {
                j = skip_ws(s, n, q2 + 1);
                proof {
                    if members_at(s@, j as int) is Some {
                        let pr = members_at(s@, j as int)->Some_0;
                        assert(members_at(s@, jold) == Option::Some(
                            (seq![(km, vm)] + pr.0, pr.1),
                        ));
                        assert(msf + (seq![(km, vm)] + pr.0) =~= model_fields(fields@) + pr.0);
                    } else {
                        assert(members_at(s@, jold) is None);
                    }
                }
            } else if sep == '}' {
                proof {
                    assert(members_at(s@, jold) == Option::Some(
                        (seq![(km, vm)], q2 as int + 1),
                    ));
                    assert(msf + seq![(km, vm)] =~= model_fields(fields@));
                }
                return Some((JsonValue::Obj(fields), q2 + 1));
            } else {
                return None;
            }
        }
    } else {
        None
    }
}

/// Parses a complete JSON document: one value, possibly surrounded by
/// whitespace, with nothing after it. The result agrees exactly with the
/// grammar `json_document`; a document of whitespace alone is rejected.
pub fn parse_json(s: &str) -> (r: Option<JsonValue>)
    ensures
        match r {
            Some(v) => json_document(s@) == Option::Some(v@),
            None => json_document(s@) is None,
        },
        (forall|i: int| 0 <= i < s@.len() ==> is_ws_char(s@[i])) ==> r is None,
{
    let n: usize = s.unicode_len();
    match parse_value(s, n, 0) {
        Some((v, j)) => {
            let k = skip_ws(s, n, j);
            if k == n {
                Some(v)
            } else {
                None
            }
        },
        None => None,
    }
}

} // verus!
