//! Parsing of JSON text, with a recursive specification parser as the
//! contract for the executable one.

use vstd::prelude::*;
use crate::chars::char_from_u32;
use crate::chars::string_of;
use crate::chars::subvec;
use crate::json::Json;
use crate::json::JsonV;
use crate::json::items_view;
use crate::json::members_view;
use crate::num::is_digit_char;
use crate::num::num_end;
use crate::num::num_end_x;

verus! {

broadcast use {vstd::seq::group_seq_axioms, vstd::seq_lib::group_seq_lib_default};

pub open spec fn is_ws(c: char) -> bool {
    c == ' ' || c == '\t' || c == '\n' || c == '\r'
}

/// First index at or after `i` that does not hold JSON whitespace.
pub open spec fn ws_end(s: Seq<char>, i: int) -> int
    decreases s.len() - i,
{
    if 0 <= i && i < s.len() && is_ws(s[i]) {
        ws_end(s, i + 1)
    } else {
        i
    }
}

pub open spec fn is_hex_char(c: char) -> bool {
    is_digit_char(c) || (97 <= c as u32 && c as u32 <= 102) || (65 <= c as u32 && c as u32 <= 70)
}

pub open spec fn hex_char_val(c: char) -> u32 {
    if is_digit_char(c) {
        (c as u32 - 48) as u32
    } else if 97 <= c as u32 && c as u32 <= 102 {
        (c as u32 - 87) as u32
    } else {
        (c as u32 - 55) as u32
    }
}

/// The value of four hexadecimal digits starting at `i`, if present.
pub open spec fn hex4_val(s: Seq<char>, i: int) -> Option<u32> {
    if 0 <= i && i + 4 <= s.len() && is_hex_char(s[i]) && is_hex_char(s[i + 1]) && is_hex_char(
        s[i + 2],
    ) && is_hex_char(s[i + 3]) {
        Some(
            (hex_char_val(s[i]) * 4096 + hex_char_val(s[i + 1]) * 256 + hex_char_val(s[i + 2]) * 16
                + hex_char_val(s[i + 3])) as u32,
        )
    } else {
        None
    }
}

/// The character denoted by the escape whose designator stands at `i` (the
/// position after the backslash), with the index after the escape.  A
/// `\u` escape holding a high surrogate must be followed by a low-surrogate
/// `\u` escape; a lone surrogate is rejected.
pub open spec fn esc_end(s: Seq<char>, i: int) -> Option<(char, int)> {
    if !(0 <= i && i < s.len()) {
        None
    } else {
        let c = s[i];
        if c == '"' {
            Some(('"', i + 1))
        } else if c == '\\' {
            Some(('\\', i + 1))
        } else if c == '/' {
            Some(('/', i + 1))
        } else if c == 'b' {
            Some(('\u{8}', i + 1))
        } else if c == 'f' {
            Some(('\u{c}', i + 1))
        } else if c == 'n' {
            Some(('\n', i + 1))
        } else if c == 'r' {
            Some(('\r', i + 1))
        } else if c == 't' {
            Some(('\t', i + 1))
        } else if c == 'u' {
            match hex4_val(s, i + 1) {
                Some(n) => {
                    if 0xD800 <= n && n < 0xDC00 {
                        if i + 7 <= s.len() && s[i + 5] == '\\' && s[i + 6] == 'u' {
                            match hex4_val(s, i + 7) {
                                Some(lo) => {
                                    if 0xDC00 <= lo && lo < 0xE000 {
                                        Some(
                                            (
                                                ((0x10000 + (n - 0xD800) * 0x400 + (
                                                lo - 0xDC00
                                                )) as u32) as char,
                                                i + 11,
                                            ),
                                        )
                                    } else {
                                        None
                                    }
                                },
                                None => None,
                            }
                        } else {
                            None
                        }
                    } else if 0xDC00 <= n && n < 0xE000 {
                        None
                    } else {
                        Some((n as char, i + 5))
                    }
                },
                None => None,
            }
        } else {
            None
        }
    }
}

/// String content from `i` (the position after the opening quote) up to the
/// closing quote, with the index after the closing quote.  Unescaped control
/// characters are rejected.
pub open spec fn string_body(s: Seq<char>, i: int) -> Option<(Seq<char>, int)>
    decreases s.len() - i,
{
    if !(0 <= i && i < s.len()) {
        None
    } else if s[i] == '"' {
        Some((Seq::empty(), i + 1))
    } else if s[i] == '\\' {
        match esc_end(s, i + 1) {
            Some((c, j)) => {
                if i < j {
                    match string_body(s, j) {
                        Some((cs, k)) => Some((seq![c] + cs, k)),
                        None => None,
                    }
                } else {
                    None
                }
            },
            None => None,
        }
    } else if (s[i] as u32) < 32 {
        None
    } else {
        match string_body(s, i + 1) {
            Some((cs, k)) => Some((seq![s[i]] + cs, k)),
            None => None,
        }
    }
}

pub(crate) fn ws_end_x(s: &Vec<char>, i: usize) -> (r: usize)
    requires
        i <= s.len(),
    ensures
        r as int == ws_end(s@, i as int),
        i <= r && r <= s.len(),
    decreases s.len() - i,
{
    if i < s.len() && (s[i] == ' ' || s[i] == '\t' || s[i] == '\n' || s[i] == '\r') {
        ws_end_x(s, i + 1)
    } else {
        i
    }
}

fn is_hex_x(c: char) -> (r: bool)
    ensures
        r == is_hex_char(c),
{
    let u = c as u32;
    (48 <= u && u <= 57) || (97 <= u && u <= 102) || (65 <= u && u <= 70)
}

fn hex_val_x(c: char) -> (r: u32)
    requires
        is_hex_char(c),
    ensures
        r == hex_char_val(c),
{
    let u = c as u32;
    if 48 <= u && u <= 57 {
        u - 48
    } else if 97 <= u && u <= 102 {
        u - 87
    } else {
        u - 55
    }
}

fn hex4_x(s: &Vec<char>, i: usize) -> (r: Option<u32>)
    requires
        i <= s.len(),
    ensures
        match (r, hex4_val(s@, i as int)) {
            (Option::None, Option::None) => true,
            (Option::Some(a), Option::Some(b)) => a == b && a < 0x10000,
            _ => false,
        },
{
    if s.len() - i >= 4 && is_hex_x(s[i]) && is_hex_x(s[i + 1]) && is_hex_x(s[i + 2]) && is_hex_x(
        s[i + 3],
    ) {
        Some(
            hex_val_x(s[i]) * 4096 + hex_val_x(s[i + 1]) * 256 + hex_val_x(s[i + 2]) * 16
                + hex_val_x(s[i + 3]),
        )
    } else {
        None
    }
}

pub open spec fn esc_rel(r: Option<(char, usize)>, m: Option<(char, int)>) -> bool {
    match (r, m) {
        (Option::None, Option::None) => true,
        (Option::Some(a), Option::Some(b)) => a.0 == b.0 && a.1 as int == b.1,
        _ => false,
    }
}

fn p_esc(s: &Vec<char>, i: usize) -> (r: Option<(char, usize)>)
    requires
        i <= s.len(),
    ensures
        esc_rel(r, esc_end(s@, i as int)),
        r matches Some(p) ==> i < p.1 && p.1 <= s.len(),
{
    if i >= s.len() {
        return None;
    }
    let c = s[i];
    if c == '"' {
        Some(('"', i + 1))
    } else if c == '\\' {
        Some(('\\', i + 1))
    } else if c == '/' {
        Some(('/', i + 1))
    } else if c == 'b' {
        Some(('\u{8}', i + 1))
    } else if c == 'f' {
        Some(('\u{c}', i + 1))
    } else if c == 'n' {
        Some(('\n', i + 1))
    } else if c == 'r' {
        Some(('\r', i + 1))
    } else if c == 't' {
        Some(('\t', i + 1))
    } else if c == 'u' {
        match hex4_x(s, i + 1) {
            Some(n) => {
                if 0xD800 <= n && n < 0xDC00 {
                    if s.len() - i >= 7 && s[i + 5] == '\\' && s[i + 6] == 'u' {
                        match hex4_x(s, i + 7) {
                            Some(lo) => {
                                if 0xDC00 <= lo && lo < 0xE000 {
                                    let code: u32 = 0x10000 + (n - 0xD800) * 0x400 + (lo - 0xDC00);
                                    match char_from_u32(code) {
                                        Some(ch) => {
                                            proof {
                                                vstd::utf8::char_u32_cast(ch, code);
                                            }
                                            Some((ch, i + 11))
                                        },
                                        None => {
                                            proof {
                                                assert(false);
                                            }
                                            None
                                        },
                                    }
                                } else {
                                    None
                                }
                            },
                            None => None,
                        }
                    } else {
                        None
                    }
                } else if 0xDC00 <= n && n < 0xE000 {
                    None
                } else {
                    match char_from_u32(n) {
                        Some(ch) => {
                            proof {
                                vstd::utf8::char_u32_cast(ch, n);
                            }
                            Some((ch, i + 5))
                        },
                        None => {
                            proof {
                                assert(false);
                            }
                            None
                        },
                    }
                }
            },
            None => None,
        }
    } else {
        None
    }
}

pub open spec fn str_rel(r: Option<(Vec<char>, usize)>, m: Option<(Seq<char>, int)>) -> bool {
    match (r, m) {
        (Option::None, Option::None) => true,
        (Option::Some(a), Option::Some(b)) => a.0@ == b.0 && a.1 as int == b.1,
        _ => false,
    }
}

fn p_string_body(s: &Vec<char>, i: usize) -> (r: Option<(Vec<char>, usize)>)
    requires
        i <= s.len(),
    ensures
        str_rel(r, string_body(s@, i as int)),
        r matches Some(p) ==> i < p.1 && p.1 <= s.len(),
    decreases s.len() - i,
{
    if i >= s.len() {
        return None;
    }
    let c = s[i];
    if c == '"' {
        Some((Vec::new(), i + 1))
    } else if c == '\\' {
        match p_esc(s, i + 1) {
            Some((ch, j)) => {
                if i < j {
                    match p_string_body(s, j) {
                        Some((mut cs, k)) => {
                            let ghost cs0 = cs@;
                            cs.insert(0, ch);
                            proof {
                                assert(cs@ =~= seq![ch] + cs0);
                            }
                            Some((cs, k))
                        },
                        None => None,
                    }
                } else {
                    None
                }
            },
            None => None,
        }
    } else if (c as u32) < 32 {
        None
    } else {
        match p_string_body(s, i + 1) {
            Some((mut cs, k)) => {
                let ghost cs0 = cs@;
                cs.insert(0, c);
                proof {
                    assert(cs@ =~= seq![c] + cs0);
                }
                Some((cs, k))
            },
            None => None,
        }
    }
}

/// A JSON value starting at `i`, with the index after it.
pub open spec fn spec_value(s: Seq<char>, i: int) -> Option<(JsonV, int)>
    decreases s.len() - i, 0int,
{
    if !(0 <= i && i < s.len()) {
        None
    } else {
        let c = s[i];
        if c == 'n' {
            if i + 4 <= s.len() && s[i + 1] == 'u' && s[i + 2] == 'l' && s[i + 3] == 'l' {
                Some((JsonV::Null, i + 4))
            } else {
                None
            }
        } else if c == 't' {
            if i + 4 <= s.len() && s[i + 1] == 'r' && s[i + 2] == 'u' && s[i + 3] == 'e' {
                Some((JsonV::Bool(true), i + 4))
            } else {
                None
            }
        } else if c == 'f' {
            if i + 5 <= s.len() && s[i + 1] == 'a' && s[i + 2] == 'l' && s[i + 3] == 's' && s[i + 4]
                == 'e' {
                Some((JsonV::Bool(false), i + 5))
            } else {
                None
            }
        } else if c == '"' {
            match string_body(s, i + 1) {
                Some((cs, j)) => Some((JsonV::Str(cs), j)),
                None => None,
            }
        } else if c == '[' {
            let j = ws_end(s, i + 1);
            if j < s.len() && s[j] == ']' {
                Some((JsonV::Arr(Seq::empty()), j + 1))
            } else if i < j && j <= s.len() {
                match spec_items(s, j) {
                    Some((items, k)) => if k < s.len() && s[k] == ']' {
                        Some((JsonV::Arr(items), k + 1))
                    } else {
                        None
                    },
                    None => None,
                }
            } else {
                None
            }
        } else if c == '{' {
            let j = ws_end(s, i + 1);
            if j < s.len() && s[j] == '}' {
                Some((JsonV::Obj(Seq::empty()), j + 1))
            } else if i < j && j <= s.len() {
                match spec_members(s, j) {
                    Some((ms, k)) => if k < s.len() && s[k] == '}' {
                        Some((JsonV::Obj(ms), k + 1))
                    } else {
                        None
                    },
                    None => None,
                }
            } else {
                None
            }
        } else {
            match num_end(s, i) {
                Some(e) => Some((JsonV::Num(s.subrange(i, e)), e)),
                None => None,
            }
        }
    }
}

/// Array elements starting at `i`, with the index of the closing bracket
/// position (after trailing whitespace).
pub open spec fn spec_items(s: Seq<char>, i: int) -> Option<(Seq<JsonV>, int)>
    decreases s.len() - i, 1int,
{
    match spec_value(s, i) {
        Some((v, j)) => {
            let k = ws_end(s, j);
            if k < s.len() && s[k] == ',' {
                let m = ws_end(s, k + 1);
                if i < m && m <= s.len() {
                    match spec_items(s, m) {
                        Some((rest, e)) => Some((seq![v] + rest, e)),
                        None => None,
                    }
                } else {
                    None
                }
            } else {
                Some((seq![v], k))
            }
        },
        None => None,
    }
}

/// Object members starting at `i`, with the index of the closing brace
/// position (after trailing whitespace).
pub open spec fn spec_members(s: Seq<char>, i: int) -> Option<(Seq<(Seq<char>, JsonV)>, int)>
    decreases s.len() - i, 1int,
{
    if !(0 <= i && i < s.len()) {
        None
    } else if s[i] != '"' {
        None
    } else {
        match string_body(s, i + 1) {
            Some((key, j)) => {
                let a = ws_end(s, j);
                if a < s.len() && s[a] == ':' {
                    let b = ws_end(s, a + 1);
                    if i < b && b <= s.len() {
                        match spec_value(s, b) {
                            Some((v, e)) => {
                                let k = ws_end(s, e);
                                if k < s.len() && s[k] == ',' {
                                    let m = ws_end(s, k + 1);
                                    if i < m && m <= s.len() {
                                        match spec_members(s, m) {
                                            Some((rest, f)) => Some((seq![(key, v)] + rest, f)),
                                            None => None,
                                        }
                                    } else {
                                        None
                                    }
                                } else {
                                    Some((seq![(key, v)], k))
                                }
                            },
                            None => None,
                        }
                    } else {
                        None
                    }
                } else {
                    None
                }
            },
            None => None,
        }
    }
}

/// A complete JSON document: one value surrounded by whitespace.
pub open spec fn spec_json(s: Seq<char>) -> Option<JsonV> {
    let i = ws_end(s, 0);
    match spec_value(s, i) {
        Some((v, j)) => if ws_end(s, j) == s.len() {
            Some(v)
        } else {
            None
        },
        None => None,
    }
}

pub open spec fn val_rel(r: Option<(Json, usize)>, m: Option<(JsonV, int)>) -> bool {
    match (r, m) {
        (Option::None, Option::None) => true,
        (Option::Some(a), Option::Some(b)) => a.0@ == b.0 && a.1 as int == b.1,
        _ => false,
    }
}

pub open spec fn items_rel(r: Option<(Vec<Json>, usize)>, m: Option<(Seq<JsonV>, int)>) -> bool {
    match (r, m) {
        (Option::None, Option::None) => true,
        (Option::Some(a), Option::Some(b)) => items_view(a.0@) == b.0 && a.1 as int == b.1,
        _ => false,
    }
}

pub open spec fn members_rel(
    r: Option<(Vec<(String, Json)>, usize)>,
    m: Option<(Seq<(Seq<char>, JsonV)>, int)>,
) -> bool {
    match (r, m) {
        (Option::None, Option::None) => true,
        (Option::Some(a), Option::Some(b)) => members_view(a.0@) == b.0 && a.1 as int == b.1,
        _ => false,
    }
}

fn p_value(s: &Vec<char>, i: usize) -> (r: Option<(Json, usize)>)
    requires
        i <= s.len(),
    ensures
        val_rel(r, spec_value(s@, i as int)),
        r matches Some(p) ==> i < p.1 && p.1 <= s.len(),
    decreases s.len() - i, 0int,
{
    if i >= s.len() {
        return None;
    }
    let c = s[i];
    if c == 'n' {
        if s.len() - i >= 4 && s[i + 1] == 'u' && s[i + 2] == 'l' && s[i + 3] == 'l' {
            Some((Json::Null, i + 4))
        } else {
            None
        }
    } else if c == 't' {
        if s.len() - i >= 4 && s[i + 1] == 'r' && s[i + 2] == 'u' && s[i + 3] == 'e' {
            Some((Json::Bool(true), i + 4))
        } else {
            None
        }
    } else if c == 'f' {
        if s.len() - i >= 5 && s[i + 1] == 'a' && s[i + 2] == 'l' && s[i + 3] == 's' && s[i + 4]
            == 'e' {
            Some((Json::Bool(false), i + 5))
        } else {
            None
        }
    } else if c == '"' {
        match p_string_body(s, i + 1) {
            Some((cs, j)) => Some((Json::Str(string_of(&cs)), j)),
            None => None,
        }
    } else if c == '[' {
        let j = ws_end_x(s, i + 1);
        if j < s.len() && s[j] == ']' {
            let out: Vec<Json> = Vec::new();
            proof {
                assert(items_view(out@) =~= Seq::<JsonV>::empty());
            }
            Some((Json::Arr(out), j + 1))
        } else if i < j {
            match p_items(s, j) {
                Some((items, k)) => {
                    if k < s.len() && s[k] == ']' {
                        Some((Json::Arr(items), k + 1))
                    } else {
                        None
                    }
                },
                None => None,
            }
        } else {
            None
        }
    } else if c == '{' {
        let j = ws_end_x(s, i + 1);
        if j < s.len() && s[j] == '}' {
            let out: Vec<(String, Json)> = Vec::new();
            proof {
                assert(members_view(out@) =~= Seq::<(Seq<char>, JsonV)>::empty());
            }
            Some((Json::Obj(out), j + 1))
        } else if i < j {
            match p_members(s, j) {
                Some((ms, k)) => {
                    if k < s.len() && s[k] == '}' {
                        Some((Json::Obj(ms), k + 1))
                    } else {
                        None
                    }
                },
                None => None,
            }
        } else {
            None
        }
    } else {
        match num_end_x(s, i) {
            Some(e) => {
                let t = subvec(s, i, e);
                Some((Json::Num(string_of(&t)), e))
            },
            None => None,
        }
    }
}

fn p_items(s: &Vec<char>, i: usize) -> (r: Option<(Vec<Json>, usize)>)
    requires
        i <= s.len(),
    ensures
        items_rel(r, spec_items(s@, i as int)),
        r matches Some(p) ==> i < p.1 && p.1 <= s.len(),
    decreases s.len() - i, 1int,
{
    match p_value(s, i) {
        Some((v, j)) => {
            let k = ws_end_x(s, j);
            if k < s.len() && s[k] == ',' {
                let m = ws_end_x(s, k + 1);
                if i < m {
                    match p_items(s, m) {
                        Some((mut rest, e)) => {
                            let ghost r0 = rest@;
                            let ghost vv = v@;
                            rest.insert(0, v);
                            proof {
                                crate::json::lemma_items_view(r0);
                                crate::json::lemma_items_view(rest@);
                                assert(rest@ =~= seq![v] + r0);
                                assert(items_view(rest@) =~= seq![vv] + items_view(r0));
                            }
                            Some((rest, e))
                        },
                        None => None,
                    }
                } else {
                    None
                }
            } else {
                let mut out: Vec<Json> = Vec::new();
                let ghost vv = v@;
                out.push(v);
                proof {
                    crate::json::lemma_items_view(out@);
                    assert(items_view(out@) =~= seq![vv]);
                }
                Some((out, k))
            }
        },
        None => None,
    }
}

fn p_members(s: &Vec<char>, i: usize) -> (r: Option<(Vec<(String, Json)>, usize)>)
    requires
        i <= s.len(),
    ensures
        members_rel(r, spec_members(s@, i as int)),
        r matches Some(p) ==> i < p.1 && p.1 <= s.len(),
    decreases s.len() - i, 1int,
{
    if i >= s.len() {
        return None;
    }
    if s[i] != '"' {
        return None;
    }
    match p_string_body(s, i + 1) {
        Some((kv, j)) => {
            let key = string_of(&kv);
            let a = ws_end_x(s, j);
            if a < s.len() && s[a] == ':' {
                let b = ws_end_x(s, a + 1);
                if i < b {
                    match p_value(s, b) {
                        Some((v, e)) => {
                            let k = ws_end_x(s, e);
                            if k < s.len() && s[k] == ',' {
                                let m = ws_end_x(s, k + 1);
                                if i < m {
                                    match p_members(s, m) {
                                        Some((mut rest, f)) => {
                                            let ghost r0 = rest@;
                                            let ghost kvv = key@;
                                            let ghost vv = v@;
                                            rest.insert(0, (key, v));
                                            proof {
                                                crate::json::lemma_members_view(r0);
                                                crate::json::lemma_members_view(rest@);
                                                assert(members_view(rest@) =~= seq![(kvv, vv)]
                                                    + members_view(r0));
                                            }
                                            Some((rest, f))
                                        },
                                        None => None,
                                    }
                                } else {
                                    None
                                }
                            } else {
                                let mut out: Vec<(String, Json)> = Vec::new();
                                let ghost kvv = key@;
                                let ghost vv = v@;
                                out.push((key, v));
                                proof {
                                    crate::json::lemma_members_view(out@);
                                    assert(members_view(out@) =~= seq![(kvv, vv)]);
                                }
                                Some((out, k))
                            }
                        },
                        None => None,
                    }
                } else {
                    None
                }
            } else {
                None
            }
        },
        None => None,
    }
}

/// Parses a complete JSON document, exactly as `spec_json` describes.
pub fn parse(s: &str) -> (r: Option<Json>)
    ensures
        match (r, spec_json(s@)) {
            (Option::None, Option::None) => true,
            (Option::Some(j), Option::Some(v)) => j@ == v,
            _ => false,
        },
{
    let cs = crate::chars::chars_of(s);
    let i = ws_end_x(&cs, 0);
    match p_value(&cs, i) {
        Some((j, e)) => {
            let k = ws_end_x(&cs, e);
            if k == cs.len() {
                Some(j)
            } else {
                None
            }
        },
        None => None,
    }
}

} // verus!
