//! The JSON subset that the session body is written in.
//!
//! Each scanning function has a specification twin on `Seq<char>`; the
//! executable function returns exactly what its twin describes.  Positions
//! are indices into the character sequence.  A few range checks on the
//! positions that sub-parses return keep every recursive call's termination
//! measure self-evident; a successful sub-parse always lands inside them.

use vstd::prelude::*;

use crate::time::digit_val;
use crate::time::is_digit;

verus! {

pub open spec fn is_ws(c: char) -> bool {
    c == ' ' || c == '\t' || c == '\n' || c == '\r'
}

/// The first position at or after `i` that does not hold whitespace.
pub open spec fn skip_ws(s: Seq<char>, i: int) -> int
    decreases s.len() - i,
{
    if 0 <= i < s.len() && is_ws(s[i]) {
        let r = skip_ws(s, i + 1);
        if r < i + 1 {
            i + 1
        } else if r > s.len() {
            s.len() as int
        } else {
            r
        }
    } else {
        i
    }
}

fn is_ws_x(c: char) -> (r: bool)
    ensures
        r == is_ws(c),
{
    c == ' ' || c == '\t' || c == '\n' || c == '\r'
}

/// Advance past whitespace.
pub fn ws_end(s: &str, i: usize) -> (j: usize)
    requires
        i <= s@.len() <= usize::MAX,
    ensures
        j == skip_ws(s@, i as int),
        i <= j <= s@.len(),
    decreases s@.len() - i,
{
    if i < s.unicode_len() && is_ws_x(s.get_char(i)) {
        ws_end(s, i + 1)
    } else {
        i
    }
}

pub open spec fn escape_char(c: char) -> Option<char> {
    if c == '"' {
        Some('"')
    } else if c == '\\' {
        Some('\\')
    } else if c == '/' {
        Some('/')
    } else if c == 'b' {
        Some('\u{0008}')
    } else if c == 'f' {
        Some('\u{000C}')
    } else if c == 'n' {
        Some('\n')
    } else if c == 'r' {
        Some('\r')
    } else if c == 't' {
        Some('\t')
    } else {
        None
    }
}

fn escape_char_x(c: char) -> (r: Option<char>)
    ensures
        r == escape_char(c),
{
    if c == '"' {
        Some('"')
    } else if c == '\\' {
        Some('\\')
    } else if c == '/' {
        Some('/')
    } else if c == 'b' {
        Some('\u{0008}')
    } else if c == 'f' {
        Some('\u{000C}')
    } else if c == 'n' {
        Some('\n')
    } else if c == 'r' {
        Some('\r')
    } else if c == 't' {
        Some('\t')
    } else {
        None
    }
}

pub open spec fn is_hex(c: char) -> bool {
    is_digit(c) || 'a' as u32 <= c as u32 <= 'f' as u32 || 'A' as u32 <= c as u32 <= 'F' as u32
}

pub open spec fn hex_val(c: char) -> int {
    if is_digit(c) {
        digit_val(c)
    } else if 'a' as u32 <= c as u32 <= 'f' as u32 {
        c as u32 - 'a' as u32 + 10
    } else {
        c as u32 - 'A' as u32 + 10
    }
}

pub open spec fn hex4_ok(s: Seq<char>, i: int) -> bool {
    &&& 0 <= i
    &&& i + 4 <= s.len()
    &&& is_hex(s[i])
    &&& is_hex(s[i + 1])
    &&& is_hex(s[i + 2])
    &&& is_hex(s[i + 3])
}

pub open spec fn hex4(s: Seq<char>, i: int) -> int {
    ((hex_val(s[i]) * 16 + hex_val(s[i + 1])) * 16 + hex_val(s[i + 2])) * 16 + hex_val(s[i + 3])
}

fn hex_of(c: char) -> (r: Option<u8>)
    ensures
        r is Some <==> is_hex(c),
        r is Some ==> r->0 as int == hex_val(c),
{
    let u = c as u32;
    if 48 <= u && u <= 57 {
        Some((u - 48) as u8)
    } else if 97 <= u && u <= 102 {
        Some((u - 97 + 10) as u8)
    } else if 65 <= u && u <= 70 {
        Some((u - 65 + 10) as u8)
    } else {
        None
    }
}

fn hex4_at(s: &str, i: usize) -> (r: Option<u32>)
    requires
        i <= s@.len() <= usize::MAX,
    ensures
        r is Some <==> hex4_ok(s@, i as int),
        r is Some ==> r->0 as int == hex4(s@, i as int),
{
    if s.unicode_len() - i < 4 {
        return None;
    }
    let a = match hex_of(s.get_char(i)) {
        Some(v) => v,
        None => {
            return None;
        },
    };
    let b = match hex_of(s.get_char(i + 1)) {
        Some(v) => v,
        None => {
            return None;
        },
    };
    let c = match hex_of(s.get_char(i + 2)) {
        Some(v) => v,
        None => {
            return None;
        },
    };
    let d = match hex_of(s.get_char(i + 3)) {
        Some(v) => v,
        None => {
            return None;
        },
    };
    Some(((a as u32 * 16 + b as u32) * 16 + c as u32) * 16 + d as u32)
}

/// Relies on std's `String::push`: appends one character at the end.
#[verifier::external_body]
pub(crate) fn push_char(out: &mut String, c: char)
    ensures
        final(out)@ == old(out)@.push(c),
{
    out.push(c);
}

/// Relies on std's `char::from_u32`: `Some` exactly for Unicode scalar
/// values (not a surrogate, at most 0x10FFFF), and the character it returns
/// has the given code.
#[verifier::external_body]
fn char_from_u32(u: u32) -> (r: Option<char>)
    ensures
        r is Some <==> (u < 0xD800 || (0xE000 <= u <= 0x10FFFF)),
        r is Some ==> r->0 as u32 == u,
{
    char::from_u32(u)
}

pub open spec fn prepend(c: char, r: Option<(Seq<char>, int)>) -> Option<(Seq<char>, int)> {
    match r {
        Some(p) => Some((seq![c] + p.0, p.1)),
        None => None,
    }
}

/// The decoded text and end position of a JSON string whose opening quote
/// stands just before `i`.  Escapes are decoded; `\u` escapes must be
/// scalar values or a high/low surrogate pair; raw control characters are
/// refused.
pub open spec fn parse_string_body(s: Seq<char>, i: int) -> Option<(Seq<char>, int)>
    decreases s.len() - i,
{
    if !(0 <= i < s.len()) {
        None
    } else if s[i] == '"' {
        Some((Seq::empty(), i + 1))
    } else if s[i] == '\\' {
        if i + 2 > s.len() {
            None
        } else {
            let e = s[i + 1];
            if e == 'u' {
                if hex4_ok(s, i + 2) {
                    let code = hex4(s, i + 2);
                    if 0xD800 <= code < 0xDC00 {
                        if i + 12 <= s.len() && s[i + 6] == '\\' && s[i + 7] == 'u' && hex4_ok(
                            s,
                            i + 8,
                        ) && 0xDC00 <= hex4(s, i + 8) < 0xE000 {
                            let cp = 0x10000 + (code - 0xD800) * 0x400 + (hex4(s, i + 8) - 0xDC00);
                            prepend(cp as char, parse_string_body(s, i + 12))
                        } else {
                            None
                        }
                    } else if 0xDC00 <= code < 0xE000 {
                        None
                    } else {
                        prepend(code as char, parse_string_body(s, i + 6))
                    }
                } else {
                    None
                }
            } else {
                match escape_char(e) {
                    Some(c) => prepend(c, parse_string_body(s, i + 2)),
                    None => None,
                }
            }
        }
    } else if (s[i] as u32) < 0x20 {
        None
    } else {
        prepend(s[i], parse_string_body(s, i + 1))
    }
}

/// Scan a JSON string body, appending the decoded text to `out`.
pub fn scan_string(s: &str, i: usize, out: &mut String) -> (r: Option<usize>)
    requires
        i <= s@.len() <= usize::MAX,
    ensures
        r is Some <==> parse_string_body(s@, i as int) is Some,
        r is Some ==> {
            let p = parse_string_body(s@, i as int)->0;
            r->0 == p.1 && final(out)@ == old(out)@ + p.0 && i < p.1 <= s@.len()
        },
    decreases s@.len() - i,
{
    if i >= s.unicode_len() {
        return None;
    }
    let c = s.get_char(i);
    if c == '"' {
        proof {
            assert(old(out)@ + (parse_string_body(s@, i as int)->0).0 =~= old(out)@);
        }
        return Some(i + 1);
    }
    if c == '\\' {
        if s.unicode_len() - i < 2 {
            return None;
        }
        let e = s.get_char(i + 1);
        if e == 'u' {
            let code = match hex4_at(s, i + 2) {
                Some(v) => v,
                None => {
                    return None;
                },
            };
            if 0xD800 <= code && code < 0xDC00 {
                if s.unicode_len() - i >= 12 && s.get_char(i + 6) == '\\' && s.get_char(i + 7)
                    == 'u' {
                    let low = match hex4_at(s, i + 8) {
                        Some(v) => v,
                        None => {
                            return None;
                        },
                    };
                    if 0xDC00 <= low && low < 0xE000 {
                        let cp = 0x10000 + (code - 0xD800) * 0x400 + (low - 0xDC00);
                        let ch = match char_from_u32(cp) {
                            Some(v) => v,
                            None => {
                                return None;
                            },
                        };
                        proof {
                            vstd::utf8::char_u32_cast(ch, cp);
                        }
                        push_char(out, ch);
                        let r = scan_string(s, i + 12, out);
                        proof {
                            if parse_string_body(s@, i as int + 12) is Some {
                                let p = parse_string_body(s@, i as int + 12)->0;
                                assert(old(out)@.push(ch) + p.0 =~= old(out)@ + (seq![ch] + p.0));
                            }
                        }
                        return r;
                    } else {
                        return None;
                    }
                } else {
                    return None;
                }
            } else if 0xDC00 <= code && code < 0xE000 {
                return None;
            } else {
                let ch = match char_from_u32(code) {
                    Some(v) => v,
                    None => {
                        return None;
                    },
                };
                proof {
                    vstd::utf8::char_u32_cast(ch, code);
                }
                push_char(out, ch);
                let r = scan_string(s, i + 6, out);
                proof {
                    if parse_string_body(s@, i as int + 6) is Some {
                        let p = parse_string_body(s@, i as int + 6)->0;
                        assert(old(out)@.push(ch) + p.0 =~= old(out)@ + (seq![ch] + p.0));
                    }
                }
                return r;
            }
        } else {
            match escape_char_x(e) {
                Some(c2) => {
                    push_char(out, c2);
                    let r = scan_string(s, i + 2, out);
                    proof {
                        if parse_string_body(s@, i as int + 2) is Some {
                            let p = parse_string_body(s@, i as int + 2)->0;
                            assert(old(out)@.push(c2) + p.0 =~= old(out)@ + (seq![c2] + p.0));
                        }
                    }
                    return r;
                },
                None => {
                    return None;
                },
            }
        }
    }
    if (c as u32) < 0x20 {
        return None;
    }
    push_char(out, c);
    let r = scan_string(s, i + 1, out);
    proof {
        if parse_string_body(s@, i as int + 1) is Some {
            let p = parse_string_body(s@, i as int + 1)->0;
            assert(old(out)@.push(c) + p.0 =~= old(out)@ + (seq![c] + p.0));
        }
    }
    r
}

/// Accumulate decimal digits from `i` on; `None` when the value would not
/// fit in `usize`.
pub open spec fn parse_uint_from(s: Seq<char>, i: int, acc: int) -> Option<(int, int)>
    decreases s.len() - i,
{
    if 0 <= i < s.len() && is_digit(s[i]) {
        let v = acc * 10 + digit_val(s[i]);
        if v > usize::MAX {
            None
        } else {
            parse_uint_from(s, i + 1, v)
        }
    } else {
        Some((acc, i))
    }
}

/// Scan decimal digits, extending `acc`.
pub fn scan_uint(s: &str, i: usize, acc: usize) -> (r: Option<(usize, usize)>)
    requires
        i <= s@.len() <= usize::MAX,
    ensures
        r is Some <==> parse_uint_from(s@, i as int, acc as int) is Some,
        r is Some ==> {
            let p = parse_uint_from(s@, i as int, acc as int)->0;
            (r->0).0 == p.0 && (r->0).1 == p.1 && i <= p.1 <= s@.len()
        },
    decreases s@.len() - i,
{
    if i < s.unicode_len() {
        if let Some(d) = digit_of_x(s.get_char(i)) {
            let v: u128 = acc as u128 * 10 + d as u128;
            if v > usize::MAX as u128 {
                return None;
            }
            return scan_uint(s, i + 1, v as usize);
        }
    }
    Some((acc, i))
}

fn digit_of_x(c: char) -> (r: Option<u8>)
    ensures
        r is Some <==> is_digit(c),
        r is Some ==> r->0 as int == digit_val(c),
{
    let u = c as u32;
    if 48 <= u && u <= 57 {
        Some((u - 48) as u8)
    } else {
        None
    }
}

/// The first position at or after `i` that does not hold a digit.
pub open spec fn digits_end(s: Seq<char>, i: int) -> int
    decreases s.len() - i,
{
    if 0 <= i < s.len() && is_digit(s[i]) {
        let r = digits_end(s, i + 1);
        if r < i + 1 {
            i + 1
        } else if r > s.len() {
            s.len() as int
        } else {
            r
        }
    } else {
        i
    }
}

fn digits_end_x(s: &str, i: usize) -> (j: usize)
    requires
        i <= s@.len() <= usize::MAX,
    ensures
        j == digits_end(s@, i as int),
        i <= j <= s@.len(),
    decreases s@.len() - i,
{
    if i < s.unicode_len() && digit_of_x(s.get_char(i)).is_some() {
        digits_end_x(s, i + 1)
    } else {
        i
    }
}

/// The end position of a JSON number starting at `i` (sign, integer part,
/// optional fraction and exponent).
pub open spec fn skip_number(s: Seq<char>, i: int) -> Option<int> {
    let p = if 0 <= i < s.len() && s[i] == '-' {
        i + 1
    } else {
        i
    };
    if !(0 <= p < s.len() && is_digit(s[p])) {
        None
    } else {
        let q = if s[p] == '0' {
            p + 1
        } else {
            digits_end(s, p)
        };
        let f = if q < s.len() && s[q] == '.' {
            if digits_end(s, q + 1) > q + 1 {
                Some(digits_end(s, q + 1))
            } else {
                None
            }
        } else {
            Some(q)
        };
        match f {
            None => None,
            Some(r) => {
                if r < s.len() && (s[r] == 'e' || s[r] == 'E') {
                    let e = if r + 1 < s.len() && (s[r + 1] == '+' || s[r + 1] == '-') {
                        r + 2
                    } else {
                        r + 1
                    };
                    if digits_end(s, e) > e {
                        Some(digits_end(s, e))
                    } else {
                        None
                    }
                } else {
                    Some(r)
                }
            },
        }
    }
}

/// Scan past a JSON number.
pub fn scan_number(s: &str, i: usize) -> (r: Option<usize>)
    requires
        i <= s@.len() <= usize::MAX,
    ensures
        r is Some <==> skip_number(s@, i as int) is Some,
        r is Some ==> r->0 == skip_number(s@, i as int)->0,
        r is Some ==> (i as int) < (r->0) && (r->0) <= s@.len(),
{
    let n = s.unicode_len();
    let p = if i < n && s.get_char(i) == '-' {
        i + 1
    } else {
        i
    };
    if !(p < n && digit_of_x(s.get_char(p)).is_some()) {
        return None;
    }
    let q = if s.get_char(p) == '0' {
        p + 1
    } else {
        digits_end_x(s, p)
    };
    let fr = if q < n && s.get_char(q) == '.' {
        let t = digits_end_x(s, q + 1);
        if t > q + 1 {
            t
        } else {
            return None;
        }
    } else {
        q
    };
    if fr < n && (s.get_char(fr) == 'e' || s.get_char(fr) == 'E') {
        let e = if fr + 1 < n && (s.get_char(fr + 1) == '+' || s.get_char(fr + 1) == '-') {
            fr + 2
        } else {
            fr + 1
        };
        let t = digits_end_x(s, e);
        if t > e {
            Some(t)
        } else {
            None
        }
    } else {
        Some(fr)
    }
}

/// The end position of any JSON value starting exactly at `i`.
pub open spec fn skip_value(s: Seq<char>, i: int) -> Option<int>
    decreases s.len() - i, 2int,
{
    if !(0 <= i < s.len()) {
        None
    } else if s[i] == '"' {
        match parse_string_body(s, i + 1) {
            Some(p) => if i < p.1 <= s.len() {
                Some(p.1)
            } else {
                None
            },
            None => None,
        }
    } else if s[i] == 't' {
        if i + 4 <= s.len() && s[i + 1] == 'r' && s[i + 2] == 'u' && s[i + 3] == 'e' {
            Some(i + 4)
        } else {
            None
        }
    } else if s[i] == 'f' {
        if i + 5 <= s.len() && s[i + 1] == 'a' && s[i + 2] == 'l' && s[i + 3] == 's' && s[i + 4]
            == 'e' {
            Some(i + 5)
        } else {
            None
        }
    } else if s[i] == 'n' {
        if i + 4 <= s.len() && s[i + 1] == 'u' && s[i + 2] == 'l' && s[i + 3] == 'l' {
            Some(i + 4)
        } else {
            None
        }
    } else if s[i] == '[' {
        let j = skip_ws(s, i + 1);
        if j < s.len() && s[j] == ']' {
            Some(j + 1)
        } else if i < j {
            skip_array_items(s, j)
        } else {
            None
        }
    } else if s[i] == '{' {
        let j = skip_ws(s, i + 1);
        if j < s.len() && s[j] == '}' {
            Some(j + 1)
        } else if i < j {
            skip_object_items(s, j)
        } else {
            None
        }
    } else {
        skip_number(s, i)
    }
}

/// The end position of the items of a JSON array, the first of which
/// starts exactly at `i`; consumes the closing bracket.
pub open spec fn skip_array_items(s: Seq<char>, i: int) -> Option<int>
    decreases s.len() - i, 3int,
{
    match skip_value(s, i) {
        None => None,
        Some(j) => if !(i < j <= s.len()) {
            None
        } else {
            let m = skip_ws(s, j);
            if m < s.len() && s[m] == ',' {
                let n = skip_ws(s, m + 1);
                if i < n {
                    skip_array_items(s, n)
                } else {
                    None
                }
            } else if m < s.len() && s[m] == ']' {
                Some(m + 1)
            } else {
                None
            }
        },
    }
}

/// The end position of the members of a JSON object, the first key of
/// which starts exactly at `i`; consumes the closing brace.
pub open spec fn skip_object_items(s: Seq<char>, i: int) -> Option<int>
    decreases s.len() - i, 3int,
{
    if !(0 <= i < s.len() && s[i] == '"') {
        None
    } else {
        match parse_string_body(s, i + 1) {
            None => None,
            Some(p) => if !(i < p.1 <= s.len()) {
                None
            } else {
                let m = skip_ws(s, p.1);
                if !(m < s.len() && s[m] == ':') {
                    None
                } else {
                    let v = skip_ws(s, m + 1);
                    if !(i < v) {
                        None
                    } else {
                        match skip_value(s, v) {
                            None => None,
                            Some(k) => if !(v < k <= s.len()) {
                                None
                            } else {
                                let q = skip_ws(s, k);
                                if q < s.len() && s[q] == ',' {
                                    let n = skip_ws(s, q + 1);
                                    if i < n {
                                        skip_object_items(s, n)
                                    } else {
                                        None
                                    }
                                } else if q < s.len() && s[q] == '}' {
                                    Some(q + 1)
                                } else {
                                    None
                                }
                            },
                        }
                    }
                }
            },
        }
    }
}

/// Scan past any JSON value starting exactly at `i`.
pub fn scan_value(s: &str, i: usize) -> (r: Option<usize>)
    requires
        i <= s@.len() <= usize::MAX,
    ensures
        r is Some <==> skip_value(s@, i as int) is Some,
        r is Some ==> r->0 == skip_value(s@, i as int)->0,
        r is Some ==> (i as int) < (r->0) && (r->0) <= s@.len(),
    decreases s@.len() - i, 2int,
{
    let n = s.unicode_len();
    if i >= n {
        return None;
    }
    let c = s.get_char(i);
    if c == '"' {
        let mut scratch = String::new();
        match scan_string(s, i + 1, &mut scratch) {
            Some(j) => Some(j),
            None => None,
        }
    } else if c == 't' {
        if n - i >= 4 && s.get_char(i + 1) == 'r' && s.get_char(i + 2) == 'u' && s.get_char(i + 3)
            == 'e' {
            Some(i + 4)
        } else {
            None
        }
    } else if c == 'f' {
        if n - i >= 5 && s.get_char(i + 1) == 'a' && s.get_char(i + 2) == 'l' && s.get_char(i + 3)
            == 's' && s.get_char(i + 4) == 'e' {
            Some(i + 5)
        } else {
            None
        }
    } else if c == 'n' {
        if n - i >= 4 && s.get_char(i + 1) == 'u' && s.get_char(i + 2) == 'l' && s.get_char(i + 3)
            == 'l' {
            Some(i + 4)
        } else {
            None
        }
    } else if c == '[' {
        let j = ws_end(s, i + 1);
        if j < n && s.get_char(j) == ']' {
            Some(j + 1)
        } else {
            scan_array_items(s, j)
        }
    } else if c == '{' {
        let j = ws_end(s, i + 1);
        if j < n && s.get_char(j) == '}' {
            Some(j + 1)
        } else {
            scan_object_items(s, j)
        }
    } else {
        scan_number(s, i)
    }
}

/// Scan past the items and closing bracket of a JSON array.
pub fn scan_array_items(s: &str, i: usize) -> (r: Option<usize>)
    requires
        0 < i <= s@.len() <= usize::MAX,
    ensures
        r is Some <==> skip_array_items(s@, i as int) is Some,
        r is Some ==> r->0 == skip_array_items(s@, i as int)->0,
        r is Some ==> (i as int) < (r->0) && (r->0) <= s@.len(),
    decreases s@.len() - i, 3int,
{
    let n = s.unicode_len();
    let j = match scan_value(s, i) {
        Some(j) => j,
        None => {
            return None;
        },
    };
    let m = ws_end(s, j);
    if m < n && s.get_char(m) == ',' {
        let nx = ws_end(s, m + 1);
        scan_array_items(s, nx)
    } else if m < n && s.get_char(m) == ']' {
        Some(m + 1)
    } else {
        None
    }
}

/// Scan past the members and closing brace of a JSON object.
pub fn scan_object_items(s: &str, i: usize) -> (r: Option<usize>)
    requires
        0 < i <= s@.len() <= usize::MAX,
    ensures
        r is Some <==> skip_object_items(s@, i as int) is Some,
        r is Some ==> r->0 == skip_object_items(s@, i as int)->0,
        r is Some ==> (i as int) < (r->0) && (r->0) <= s@.len(),
    decreases s@.len() - i, 3int,
{
    let n = s.unicode_len();
    if !(i < n && s.get_char(i) == '"') {
        return None;
    }
    let mut scratch = String::new();
    let p = match scan_string(s, i + 1, &mut scratch) {
        Some(p) => p,
        None => {
            return None;
        },
    };
    let m = ws_end(s, p);
    if !(m < n && s.get_char(m) == ':') {
        return None;
    }
    let v = ws_end(s, m + 1);
    let k = match scan_value(s, v) {
        Some(k) => k,
        None => {
            return None;
        },
    };
    let q = ws_end(s, k);
    if q < n && s.get_char(q) == ',' {
        let nx = ws_end(s, q + 1);
        scan_object_items(s, nx)
    } else if q < n && s.get_char(q) == '}' {
        Some(q + 1)
    } else {
        None
    }
}

} // verus!
