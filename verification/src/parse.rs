//! A JSON parser, specified by recursive descent over the character
//! sequence and implemented by the same descent over the string.
//!
//! Each parsing function carries a fuel bound that falls on every step into
//! a nested value or a further element; a document is given fuel equal to
//! its length, so only absurdly deep nesting runs out. Numbers are taken as
//! lexemes: a maximal run of number characters, not validated further,
//! since the library never computes with them.

use vstd::prelude::*;

use crate::json::Json;
use crate::json::JsonV;
use crate::json::view_json;
use crate::json::view_jsons;
use crate::json::view_json_fields;
use crate::json::lemma_view_jsons_push;
use crate::json::lemma_view_json_fields_push;
use crate::text::char_from_code;
use crate::text::push_char;

verus! {

/// JSON whitespace.
pub open spec fn is_ws(c: char) -> bool {
    c == ' ' || c == '\t' || c == '\n' || c == '\r'
}

/// The first index at or after `i` that does not hold whitespace.
pub open spec fn skip_ws(s: Seq<char>, i: int) -> int
    decreases s.len() - i,
{
    if 0 <= i && i < s.len() && is_ws(s[i]) {
        skip_ws(s, i + 1)
    } else {
        i
    }
}

/// A hexadecimal digit, either case.
pub open spec fn is_hex(c: char) -> bool {
    (0x30 <= c as u32 && c as u32 <= 0x39) || (0x41 <= c as u32 && c as u32 <= 0x46) || (0x61
        <= c as u32 && c as u32 <= 0x66)
}

/// The value of a hexadecimal digit.
pub open spec fn hex_val(c: char) -> int
    recommends
        is_hex(c),
{
    if c as u32 <= 0x39 {
        c as u32 - 0x30
    } else if c as u32 <= 0x46 {
        c as u32 - 0x41 + 10
    } else {
        c as u32 - 0x61 + 10
    }
}

/// What a backslash escape other than `\u` stands for.
pub open spec fn simple_escape(c: char) -> Option<char> {
    if c == '"' {
        Some('"')
    } else if c == '\\' {
        Some('\\')
    } else if c == '/' {
        Some('/')
    } else if c == 'b' {
        Some('\u{8}')
    } else if c == 'f' {
        Some('\u{c}')
    } else if c == 'n' {
        Some('\n')
    } else if c == 'r' {
        Some('\r')
    } else if c == 't' {
        Some('\t')
    } else {
        None
    }
}

/// Parses the rest of a string literal: `i` is just past the opening
/// quote, `acc` holds the characters decoded so far. Returns the decoded
/// string and the index just past the closing quote. Escapes of surrogate
/// code points are rejected.
pub open spec fn string_rest(s: Seq<char>, i: int, acc: Seq<char>) -> Option<(Seq<char>, int)>
    decreases s.len() - i,
{
    if !(0 <= i && i < s.len()) {
        None
    } else {
        let c = s[i];
        if c == '"' {
            Some((acc, i + 1))
        } else if c == '\\' {
            if i + 1 < s.len() {
                let e = s[i + 1];
                if simple_escape(e) is Some {
                    string_rest(s, i + 2, acc.push(simple_escape(e).unwrap()))
                } else if e == 'u' {
                    if i + 6 <= s.len() && is_hex(s[i + 2]) && is_hex(s[i + 3]) && is_hex(s[i + 4])
                        && is_hex(s[i + 5]) {
                        let code = hex_val(s[i + 2]) * 0x1000 + hex_val(s[i + 3]) * 0x100 + hex_val(
                            s[i + 4],
                        ) * 16 + hex_val(s[i + 5]);
                        if code < 0xD800 || code > 0xDFFF {
                            string_rest(s, i + 6, acc.push(code as char))
                        } else {
                            None
                        }
                    } else {
                        None
                    }
                } else {
                    None
                }
            } else {
                None
            }
        } else if c as u32 >= 0x20 {
            string_rest(s, i + 1, acc.push(c))
        } else {
            None
        }
    }
}

/// A character that may appear in a number lexeme.
pub open spec fn is_num_char(c: char) -> bool {
    (0x30 <= c as u32 && c as u32 <= 0x39) || c == '-' || c == '+' || c == '.' || c == 'e' || c
        == 'E'
}

/// The end of the run of number characters starting at `i`.
pub open spec fn num_end(s: Seq<char>, i: int) -> int
    decreases s.len() - i,
{
    if 0 <= i && i < s.len() && is_num_char(s[i]) {
        num_end(s, i + 1)
    } else {
        i
    }
}

/// Parses one value starting at `i`, which must not hold whitespace.
/// Returns the value and the index just past it.
pub open spec fn parse_value(s: Seq<char>, i: int, fuel: nat) -> Option<(JsonV, int)>
    decreases fuel,
{
    if fuel == 0 {
        None
    } else if !(0 <= i && i < s.len()) {
        None
    } else {
        let c = s[i];
        if c == '{' {
            let k = skip_ws(s, i + 1);
            if k < s.len() && s[k] == '}' {
                Some((JsonV::Obj(Seq::empty()), k + 1))
            } else {
                match parse_fields(s, k, (fuel - 1) as nat, Seq::empty()) {
                    Some(p) => Some((JsonV::Obj(p.0), p.1)),
                    None => None,
                }
            }
        } else if c == '[' {
            let k = skip_ws(s, i + 1);
            if k < s.len() && s[k] == ']' {
                Some((JsonV::Arr(Seq::empty()), k + 1))
            } else {
                match parse_items(s, k, (fuel - 1) as nat, Seq::empty()) {
                    Some(p) => Some((JsonV::Arr(p.0), p.1)),
                    None => None,
                }
            }
        } else if c == '"' {
            match string_rest(s, i + 1, Seq::empty()) {
                Some(p) => Some((JsonV::Str(p.0), p.1)),
                None => None,
            }
        } else if c == 't' {
            if i + 4 <= s.len() && s[i + 1] == 'r' && s[i + 2] == 'u' && s[i + 3] == 'e' {
                Some((JsonV::Bool(true), i + 4))
            } else {
                None
            }
        } else if c == 'f' {
            if i + 5 <= s.len() && s[i + 1] == 'a' && s[i + 2] == 'l' && s[i + 3] == 's' && s[i + 4]
                == 'e' {
                Some((JsonV::Bool(false), i + 5))
            } else {
                None
            }
        } else if c == 'n' {
            if i + 4 <= s.len() && s[i + 1] == 'u' && s[i + 2] == 'l' && s[i + 3] == 'l' {
                Some((JsonV::Null, i + 4))
            } else {
                None
            }
        } else if c == '-' || (0x30 <= c as u32 && c as u32 <= 0x39) {
            Some((JsonV::Num(s.subrange(i, num_end(s, i))), num_end(s, i)))
        } else {
            None
        }
    }
}

/// Parses the elements of an array from the start of its first element to
/// just past the closing bracket; `acc` holds the elements already parsed.
pub open spec fn parse_items(s: Seq<char>, i: int, fuel: nat, acc: Seq<JsonV>) -> Option<
    (Seq<JsonV>, int),
>
    decreases fuel,
{
    if fuel == 0 {
        None
    } else {
        match parse_value(s, i, (fuel - 1) as nat) {
            None => None,
            Some(p) => {
                let k = skip_ws(s, p.1);
                if k < s.len() && s[k] == ',' {
                    parse_items(s, skip_ws(s, k + 1), (fuel - 1) as nat, acc.push(p.0))
                } else if k < s.len() && s[k] == ']' {
                    Some((acc.push(p.0), k + 1))
                } else {
                    None
                }
            },
        }
    }
}

/// Parses the fields of an object from the opening quote of its first key
/// to just past the closing brace; `acc` holds the fields already parsed.
pub open spec fn parse_fields(s: Seq<char>, i: int, fuel: nat, acc: Seq<(Seq<char>, JsonV)>)
    -> Option<(Seq<(Seq<char>, JsonV)>, int)>
    decreases fuel,
{
    if fuel == 0 {
        None
    } else if !(0 <= i && i < s.len() && s[i] == '"') {
        None
    } else {
        match string_rest(s, i + 1, Seq::empty()) {
            None => None,
            Some(kp) => {
                let k = skip_ws(s, kp.1);
                if k < s.len() && s[k] == ':' {
                    match parse_value(s, skip_ws(s, k + 1), (fuel - 1) as nat) {
                        None => None,
                        Some(vp) => {
                            let k2 = skip_ws(s, vp.1);
                            if k2 < s.len() && s[k2] == ',' {
                                parse_fields(
                                    s,
                                    skip_ws(s, k2 + 1),
                                    (fuel - 1) as nat,
                                    acc.push((kp.0, vp.0)),
                                )
                            } else if k2 < s.len() && s[k2] == '}' {
                                Some((acc.push((kp.0, vp.0)), k2 + 1))
                            } else {
                                None
                            }
                        },
                    }
                } else {
                    None
                }
            },
        }
    }
}

/// Parses a whole document: one value, surrounded only by whitespace.
pub open spec fn parse_json(s: Seq<char>) -> Option<JsonV> {
    match parse_value(s, skip_ws(s, 0), s.len() as nat) {
        None => None,
        Some(p) => if skip_ws(s, p.1) == s.len() {
            Some(p.0)
        } else {
            None
        },
    }
}

fn is_ws_x(c: char) -> (r: bool)
    ensures
        r == is_ws(c),
{
    c == ' ' || c == '\t' || c == '\n' || c == '\r'
}

fn skip_ws_x(s: &str, i: usize) -> (r: usize)
    requires
        i <= s@.len(),
    ensures
        r == skip_ws(s@, i as int),
        i <= r <= s@.len(),
    decreases s@.len() - i,
{
    let n = s.unicode_len();
    if i < n && is_ws_x(s.get_char(i)) {
        skip_ws_x(s, i + 1)
    } else {
        i
    }
}

fn is_hex_x(c: char) -> (r: bool)
    ensures
        r == is_hex(c),
{
    let u = c as u32;
    (0x30 <= u && u <= 0x39) || (0x41 <= u && u <= 0x46) || (0x61 <= u && u <= 0x66)
}

fn hex_val_x(c: char) -> (r: u32)
    requires
        is_hex(c),
    ensures
        r as int == hex_val(c),
        r < 16,
{
    let u = c as u32;
    if u <= 0x39 {
        u - 0x30
    } else if u <= 0x46 {
        u - 0x41 + 10
    } else {
        u - 0x61 + 10
    }
}

fn simple_escape_x(c: char) -> (r: Option<char>)
    ensures
        r == simple_escape(c),
{
    if c == '"' {
        Some('"')
    } else if c == '\\' {
        Some('\\')
    } else if c == '/' {
        Some('/')
    } else if c == 'b' {
        Some('\u{8}')
    } else if c == 'f' {
        Some('\u{c}')
    } else if c == 'n' {
        Some('\n')
    } else if c == 'r' {
        Some('\r')
    } else if c == 't' {
        Some('\t')
    } else {
        None
    }
}

fn string_rest_x(s: &str, i: usize, acc: String) -> (r: Option<(String, usize)>)
    requires
        i <= s@.len(),
    ensures
        (match r {
            Some(p) => string_rest(s@, i as int, acc@) == Some((p.0@, p.1 as int)) && p.1
                <= s@.len(),
            None => string_rest(s@, i as int, acc@) is None,
        }),
    decreases s@.len() - i,
{
    let n = s.unicode_len();
    if i >= n {
        return None;
    }
    let c = s.get_char(i);
    if c == '"' {
        Some((acc, i + 1))
    } else if c == '\\' {
        if i + 1 < n {
            let e = s.get_char(i + 1);
            match simple_escape_x(e) {
                Some(d) => {
                    let mut acc2 = acc;
                    push_char(&mut acc2, d);
                    string_rest_x(s, i + 2, acc2)
                },
                None => {
                    if e == 'u' {
                        if n - i >= 6 && is_hex_x(s.get_char(i + 2)) && is_hex_x(s.get_char(i + 3))
                            && is_hex_x(s.get_char(i + 4)) && is_hex_x(s.get_char(i + 5)) {
                            let code = hex_val_x(s.get_char(i + 2)) * 0x1000 + hex_val_x(
                                s.get_char(i + 3),
                            ) * 0x100 + hex_val_x(s.get_char(i + 4)) * 16 + hex_val_x(
                                s.get_char(i + 5),
                            );
                            if code < 0xD800 || code > 0xDFFF {
                                match char_from_code(code) {
                                    Some(ch) => {
                                        let mut acc2 = acc;
                                        push_char(&mut acc2, ch);
                                        string_rest_x(s, i + 6, acc2)
                                    },
                                    None => {
                                        proof {
                                            assert(false);
                                        }
                                        None
                                    },
                                }
                            } else {
                                None
                            }
                        } else {
                            None
                        }
                    } else {
                        None
                    }
                },
            }
        } else {
            None
        }
    } else if c as u32 >= 0x20 {
        let mut acc2 = acc;
        push_char(&mut acc2, c);
        string_rest_x(s, i + 1, acc2)
    } else {
        None
    }
}

fn num_end_x(s: &str, i: usize) -> (r: usize)
    requires
        i <= s@.len(),
    ensures
        r == num_end(s@, i as int),
        i <= r <= s@.len(),
    decreases s@.len() - i,
{
    let n = s.unicode_len();
    if i < n && is_num_char_x(s.get_char(i)) {
        num_end_x(s, i + 1)
    } else {
        i
    }
}

fn is_num_char_x(c: char) -> (r: bool)
    ensures
        r == is_num_char(c),
{
    let u = c as u32;
    (0x30 <= u && u <= 0x39) || c == '-' || c == '+' || c == '.' || c == 'e' || c == 'E'
}

fn parse_value_x(s: &str, i: usize, fuel: usize) -> (r: Option<(Json, usize)>)
    requires
        i <= s@.len(),
    ensures
        (match r {
            Some(p) => parse_value(s@, i as int, fuel as nat) == Some((view_json(p.0), p.1 as int))
                && p.1 <= s@.len(),
            None => parse_value(s@, i as int, fuel as nat) is None,
        }),
    decreases fuel,
{
    if fuel == 0 {
        return None;
    }
    let n = s.unicode_len();
    if i >= n {
        return None;
    }
    let c = s.get_char(i);
    if c == '{' {
        let k = skip_ws_x(s, i + 1);
        if k < n && s.get_char(k) == '}' {
            let fields: Vec<(String, Json)> = Vec::new();
            Some((Json::Obj(fields), k + 1))
        } else {
            match parse_fields_x(s, k, fuel - 1, Vec::new()) {
                Some(p) => Some((Json::Obj(p.0), p.1)),
                None => None,
            }
        }
    } else if c == '[' {
        let k = skip_ws_x(s, i + 1);
        if k < n && s.get_char(k) == ']' {
            let items: Vec<Json> = Vec::new();
            Some((Json::Arr(items), k + 1))
        } else {
            match parse_items_x(s, k, fuel - 1, Vec::new()) {
                Some(p) => Some((Json::Arr(p.0), p.1)),
                None => None,
            }
        }
    } else if c == '"' {
        match string_rest_x(s, i + 1, String::new()) {
            Some(p) => Some((Json::Str(p.0), p.1)),
            None => None,
        }
    } else if c == 't' {
        if n - i >= 4 && s.get_char(i + 1) == 'r' && s.get_char(i + 2) == 'u' && s.get_char(i + 3)
            == 'e' {
            Some((Json::Bool(true), i + 4))
        } else {
            None
        }
    } else if c == 'f' {
        if n - i >= 5 && s.get_char(i + 1) == 'a' && s.get_char(i + 2) == 'l' && s.get_char(i + 3)
            == 's' && s.get_char(i + 4) == 'e' {
            Some((Json::Bool(false), i + 5))
        } else {
            None
        }
    } else if c == 'n' {
        if n - i >= 4 && s.get_char(i + 1) == 'u' && s.get_char(i + 2) == 'l' && s.get_char(i + 3)
            == 'l' {
            Some((Json::Null, i + 4))
        } else {
            None
        }
    } else if c == '-' || (0x30 <= c as u32 && c as u32 <= 0x39) {
        let e = num_end_x(s, i);
        let lex = s.substring_char(i, e);
        Some((Json::Num(String::from_str(lex)), e))
    } else {
        None
    }
}

fn parse_items_x(s: &str, i: usize, fuel: usize, acc: Vec<Json>) -> (r: Option<(Vec<Json>, usize)>)
    requires
        i <= s@.len(),
    ensures
        (match r {
            Some(p) => parse_items(s@, i as int, fuel as nat, view_jsons(acc@)) == Some(
                (view_jsons(p.0@), p.1 as int),
            ) && p.1 <= s@.len(),
            None => parse_items(s@, i as int, fuel as nat, view_jsons(acc@)) is None,
        }),
    decreases fuel,
{
    if fuel == 0 {
        return None;
    }
    match parse_value_x(s, i, fuel - 1) {
        None => None,
        Some(p) => {
            let (v, e) = p;
            let k = skip_ws_x(s, e);
            let n = s.unicode_len();
            if k < n && s.get_char(k) == ',' {
                let k2 = skip_ws_x(s, k + 1);
                let mut acc2 = acc;
                acc2.push(v);
                proof {
                    lemma_view_jsons_push(acc@, v);
                }
                parse_items_x(s, k2, fuel - 1, acc2)
            } else if k < n && s.get_char(k) == ']' {
                let mut acc2 = acc;
                acc2.push(v);
                proof {
                    lemma_view_jsons_push(acc@, v);
                }
                Some((acc2, k + 1))
            } else {
                None
            }
        },
    }
}

fn parse_fields_x(s: &str, i: usize, fuel: usize, acc: Vec<(String, Json)>) -> (r: Option<
    (Vec<(String, Json)>, usize),
>)
    requires
        i <= s@.len(),
    ensures
        (match r {
            Some(p) => parse_fields(s@, i as int, fuel as nat, view_json_fields(acc@)) == Some(
                (view_json_fields(p.0@), p.1 as int),
            ) && p.1 <= s@.len(),
            None => parse_fields(s@, i as int, fuel as nat, view_json_fields(acc@)) is None,
        }),
    decreases fuel,
{
    if fuel == 0 {
        return None;
    }
    let n = s.unicode_len();
    if i >= n {
        return None;
    }
    if s.get_char(i) != '"' {
        return None;
    }
    match string_rest_x(s, i + 1, String::new()) {
        None => None,
        Some(kp) => {
            let (key, e) = kp;
            let k = skip_ws_x(s, e);
            if k < n && s.get_char(k) == ':' {
                let v_at = skip_ws_x(s, k + 1);
                match parse_value_x(s, v_at, fuel - 1) {
                    None => None,
                    Some(vp) => {
                        let (v, e2) = vp;
                        let k2 = skip_ws_x(s, e2);
                        if k2 < n && s.get_char(k2) == ',' {
                            let nk = skip_ws_x(s, k2 + 1);
                            let mut acc2 = acc;
                            acc2.push((key, v));
                            proof {
                                lemma_view_json_fields_push(acc@, (key, v));
                            }
                            parse_fields_x(s, nk, fuel - 1, acc2)
                        } else if k2 < n && s.get_char(k2) == '}' {
                            let mut acc2 = acc;
                            acc2.push((key, v));
                            proof {
                                lemma_view_json_fields_push(acc@, (key, v));
                            }
                            Some((acc2, k2 + 1))
                        } else {
                            None
                        }
                    },
                }
            } else {
                None
            }
        },
    }
}

/// Parses a whole JSON document as by [`parse_json`].
pub fn parse_document(s: &str) -> (r: Option<Json>)
    ensures
        (match r {
            Some(j) => parse_json(s@) == Some(view_json(j)),
            None => parse_json(s@) is None,
        }),
{
    let n = s.unicode_len();
    let i = skip_ws_x(s, 0);
    match parse_value_x(s, i, n) {
        None => None,
        Some(p) => {
            let (v, e) = p;
            let k = skip_ws_x(s, e);
            if k == n {
                Some(v)
            } else {
                None
            }
        },
    }
}

} // verus!
