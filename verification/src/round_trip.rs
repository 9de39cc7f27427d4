//! The serializer and the parser invert each other: parsing the rendered
//! text of a well-formed JSON document yields the document back.

use vstd::prelude::*;
use crate::json::JsonV;
use crate::json::json_wf;
use crate::emit::esc_char;
use crate::emit::esc_str;
use crate::emit::quoted;
use crate::emit::text_of;
use crate::emit::text_of_items;
use crate::emit::text_of_members;
use crate::emit::hex_digit_char;
use crate::num::digits_end;
use crate::num::frac_end;
use crate::num::exp_end;
use crate::num::num_end;
use crate::num::is_number_token;
use crate::num::is_digit_char;
use crate::parse::esc_end;
use crate::parse::hex4_val;
use crate::parse::hex_char_val;
use crate::parse::is_hex_char;
use crate::parse::is_ws;
use crate::parse::string_body;
use crate::parse::spec_items;
use crate::parse::spec_json;
use crate::parse::spec_members;
use crate::parse::spec_value;
use crate::parse::ws_end;

verus! {

broadcast use {vstd::seq::group_seq_axioms, vstd::seq_lib::group_seq_lib_default};

/// `t` stands letter for letter at position `i` of `s`.
pub open spec fn matches_at(s: Seq<char>, i: int, t: Seq<char>) -> bool {
    &&& 0 <= i
    &&& i + t.len() <= s.len()
    &&& forall|k: int| 0 <= k && k < t.len() ==> s[i + k] == #[trigger] t[k]
}

pub proof fn lemma_matches_split(s: Seq<char>, i: int, a: Seq<char>, b: Seq<char>)
    requires
        matches_at(s, i, a + b),
    ensures
        matches_at(s, i, a),
        matches_at(s, i + a.len(), b),
{
    assert forall|k: int| 0 <= k && k < a.len() implies s[i + k] == #[trigger] a[k] by {
        assert((a + b)[k] == a[k]);
        assert(s[i + k] == (a + b)[k]);
    }
    assert forall|k: int| 0 <= k && k < b.len() implies s[i + a.len() + k] == #[trigger] b[k] by {
        assert((a + b)[a.len() + k] == b[k]);
        assert(s[i + (a.len() + k)] == (a + b)[a.len() + k]);
    }
}

/// Whether the character at `j` (if any) cannot extend a number token.
pub open spec fn num_delim_at(s: Seq<char>, j: int) -> bool {
    j == s.len() || !(is_digit_char(s[j]) || s[j] == '.' || s[j] == 'e' || s[j] == 'E')
}

pub proof fn lemma_digits_end_embed(t: Seq<char>, s: Seq<char>, i: int, j: int)
    requires
        matches_at(s, i, t),
        0 <= j && j <= t.len(),
        num_delim_at(s, i + t.len()),
    ensures
        digits_end(s, i + j) == i + digits_end(t, j),
        digits_end(t, j) <= t.len(),
    decreases t.len() - j,
{
    if j < t.len() && is_digit_char(t[j]) {
        assert(s[i + j] == t[j]);
        lemma_digits_end_embed(t, s, i, j + 1);
    } else if j < t.len() {
        assert(s[i + j] == t[j]);
        assert(!is_digit_char(s[i + j]));
    } else {
        if i + j < s.len() {
            assert(!is_digit_char(s[i + j]));
        }
    }
}

pub proof fn lemma_frac_end_embed(t: Seq<char>, s: Seq<char>, i: int, j: int)
    requires
        matches_at(s, i, t),
        0 <= j && j <= t.len(),
        num_delim_at(s, i + t.len()),
    ensures
        (match frac_end(t, j) {
            Option::Some(e) => e <= t.len() ==> frac_end(s, i + j) == Option::Some(i + e),
            Option::None => true,
        }),
{
    if j < t.len() && t[j] == '.' {
        assert(s[i + j] == t[j]);
        lemma_digits_end_embed(t, s, i, j + 1);
    } else if j < t.len() {
        assert(s[i + j] == t[j]);
        assert(s[i + j] != '.');
    } else {
        if i + j < s.len() {
            assert(s[i + j] != '.');
        }
    }
}

pub proof fn lemma_exp_end_embed(t: Seq<char>, s: Seq<char>, i: int, j: int)
    requires
        matches_at(s, i, t),
        0 <= j && j <= t.len(),
        num_delim_at(s, i + t.len()),
    ensures
        (match exp_end(t, j) {
            Option::Some(e) => e <= t.len() ==> exp_end(s, i + j) == Option::Some(i + e),
            Option::None => true,
        }),
{
    if j < t.len() && (t[j] == 'e' || t[j] == 'E') {
        assert(s[i + j] == t[j]);
        if j + 1 < t.len() && (t[j + 1] == '+' || t[j + 1] == '-') {
            assert(s[i + j + 1] == t[j + 1]);
            lemma_digits_end_embed(t, s, i, j + 2);
        } else {
            if j + 1 < t.len() {
                assert(s[i + j + 1] == t[j + 1]);
            }
            if exp_end(t, j) is Some && exp_end(t, j)->0 <= t.len() {
                let a = j + 1;
                let d = digits_end(t, a);
                assert(d > a);
                assert(is_digit_char(t[a]));
                assert(s[i + a] == t[a]);
                assert(!(i + j + 1 < s.len() && (s[i + j + 1] == '+' || s[i + j + 1] == '-')));
                lemma_digits_end_embed(t, s, i, a);
            }
        }
    } else if j < t.len() {
        assert(s[i + j] == t[j]);
    } else {
        if i + j < s.len() {
            assert(s[i + j] != 'e' && s[i + j] != 'E');
        }
    }
}

/// A number token embedded before a delimiter parses to exactly its own
/// length.
pub proof fn lemma_num_embed(t: Seq<char>, s: Seq<char>, i: int)
    requires
        matches_at(s, i, t),
        is_number_token(t),
        num_delim_at(s, i + t.len()),
    ensures
        num_end(s, i) == Option::Some(i + t.len()),
{
    let a_t: int = if 0 <= 0 && 0 < t.len() && t[0] == '-' {
        1
    } else {
        0
    };
    assert(t.len() > 0);
    assert(s[i + 0] == t[0]);
    let a_s: int = if s[i] == '-' {
        i + 1
    } else {
        i
    };
    assert(a_s == i + a_t);
    assert(a_t < t.len() && is_digit_char(t[a_t]));
    assert(s[i + a_t] == t[a_t]);
    let b_t: int = if t[a_t] == '0' {
        a_t + 1
    } else {
        digits_end(t, a_t)
    };
    if t[a_t] == '0' {
    } else {
        lemma_digits_end_embed(t, s, i, a_t);
    }
    crate::num::lemma_digits_end_ge(t, a_t);
    assert(frac_end(t, b_t) is Some);
    let c_t = frac_end(t, b_t)->0;
    assert(exp_end(t, c_t) == Option::Some(t.len() as int));
    assert(c_t <= t.len()) by {
        if c_t > t.len() {
            assert(!(0 <= c_t && c_t < t.len() && (t[c_t] == 'e' || t[c_t] == 'E')));
            assert(exp_end(t, c_t) == Option::Some(c_t));
        }
    }
    assert(b_t <= t.len()) by {
        if b_t > t.len() {
            assert(frac_end(t, b_t) == Option::Some(b_t));
            assert(c_t == b_t);
        }
    }
    lemma_frac_end_embed(t, s, i, b_t);
    lemma_exp_end_embed(t, s, i, c_t);
    assert(frac_end(s, i + b_t) == Option::Some(i + c_t));
    assert(exp_end(s, i + c_t) == Option::Some(i + t.len()));
}

pub proof fn lemma_hex_digit_inverse(d: nat)
    requires
        d < 16,
    ensures
        is_hex_char(hex_digit_char(d)),
        hex_char_val(hex_digit_char(d)) == d,
{
}

/// Escaped string content followed by a closing quote parses back to the
/// content.
pub proof fn lemma_string_embed(content: Seq<char>, s: Seq<char>, i: int)
    requires
        matches_at(s, i, esc_str(content) + seq!['"']),
    ensures
        string_body(s, i) == Option::Some((content, i + esc_str(content).len() + 1)),
    decreases content.len(),
{
    if content.len() == 0 {
        assert(esc_str(content) =~= Seq::<char>::empty());
        assert((esc_str(content) + seq!['"'])[0] == '"');
        assert(s[i + 0] == '"');
        assert(string_body(s, i) == Option::Some((Seq::<char>::empty(), i + 1)));
        assert(content =~= Seq::<char>::empty());
    } else {
        let c = content[0];
        let rest = content.drop_first();
        assert(esc_str(content) == esc_char(c) + esc_str(rest));
        assert(esc_str(content) + seq!['"'] =~= esc_char(c) + (esc_str(rest) + seq!['"']));
        lemma_matches_split(s, i, esc_char(c), esc_str(rest) + seq!['"']);
        let n0 = esc_char(c).len();
        lemma_string_embed(rest, s, i + n0);
        assert(seq![c] + rest =~= content);
        if c == '"' {
            assert(esc_char(c) == seq!['\\', '"']);
            assert(s[i + 0] == '\\' && s[i + 1] == '"');
            assert(esc_end(s, i + 1) == Option::Some(('"', i + 2)));
        } else if c == '\\' {
            assert(s[i + 0] == '\\' && s[i + 1] == '\\');
            assert(esc_end(s, i + 1) == Option::Some(('\\', i + 2)));
        } else if c as u32 == 8 {
            assert(s[i + 0] == '\\' && s[i + 1] == 'b');
            vstd::utf8::char_u32_cast(c, c as u32);
            vstd::utf8::char_u32_cast('\u{8}', 8);
            assert(c == '\u{8}');
            assert(esc_end(s, i + 1) == Option::Some((c, i + 2)));
        } else if c as u32 == 9 {
            assert(s[i + 0] == '\\' && s[i + 1] == 't');
            vstd::utf8::char_u32_cast(c, c as u32);
            vstd::utf8::char_u32_cast('\t', 9);
            assert(c == '\t');
            assert(esc_end(s, i + 1) == Option::Some((c, i + 2)));
        } else if c as u32 == 10 {
            assert(s[i + 0] == '\\' && s[i + 1] == 'n');
            vstd::utf8::char_u32_cast(c, c as u32);
            vstd::utf8::char_u32_cast('\n', 10);
            assert(c == '\n');
            assert(esc_end(s, i + 1) == Option::Some((c, i + 2)));
        } else if c as u32 == 12 {
            assert(s[i + 0] == '\\' && s[i + 1] == 'f');
            vstd::utf8::char_u32_cast(c, c as u32);
            vstd::utf8::char_u32_cast('\u{c}', 12);
            assert(c == '\u{c}');
            assert(esc_end(s, i + 1) == Option::Some((c, i + 2)));
        } else if c as u32 == 13 {
            assert(s[i + 0] == '\\' && s[i + 1] == 'r');
            vstd::utf8::char_u32_cast(c, c as u32);
            vstd::utf8::char_u32_cast('\r', 13);
            assert(c == '\r');
            assert(esc_end(s, i + 1) == Option::Some((c, i + 2)));
        } else if (c as u32) < 32 {
            let u = c as u32;
            let h1 = hex_digit_char((u / 16) as nat);
            let h2 = hex_digit_char((u % 16) as nat);
            assert(esc_char(c) == seq!['\\', 'u', '0', '0', h1, h2]);
            assert(s[i + 0] == '\\' && s[i + 1] == 'u');
            assert(s[i + 2] == '0' && s[i + 3] == '0' && s[i + 4] == h1 && s[i + 5] == h2);
            lemma_hex_digit_inverse((u / 16) as nat);
            lemma_hex_digit_inverse((u % 16) as nat);
            assert(is_hex_char('0') && hex_char_val('0') == 0);
            assert(hex4_val(s, i + 2) == Option::Some(
                (hex_char_val(s[i + 2]) * 4096 + hex_char_val(s[i + 3]) * 256 + hex_char_val(
                    s[i + 4],
                ) * 16 + hex_char_val(s[i + 5])) as u32,
            ));
            assert(hex_char_val(s[i + 4]) * 16 + hex_char_val(s[i + 5]) == u);
            assert(hex4_val(s, i + 2) == Option::Some(u));
            vstd::utf8::char_u32_cast(c, u);
            assert(esc_end(s, i + 1) == Option::Some((c, i + 6)));
        } else {
            assert(esc_char(c) == seq![c]);
            assert(s[i + 0] == c);
            assert(c != '"' && c != '\\' && (c as u32) >= 32);
            assert(string_body(s, i) == Option::Some((seq![c] + rest, i + esc_str(content).len()
                + 1)));
        }
        if c == '"' || c == '\\' || (c as u32) < 32 {
            assert(s[i + 0] == '\\');
            assert(string_body(s, i) == Option::Some((seq![c] + rest, i + esc_str(content).len()
                + 1)));
        }
        assert(string_body(s, i) == Option::Some((content, i + esc_str(content).len() + 1)));
    }
}

pub proof fn lemma_ws_end_id(s: Seq<char>, j: int)
    requires
        0 <= j,
        j == s.len() || (j < s.len() && !is_ws(s[j])),
    ensures
        ws_end(s, j) == j,
{
}

pub proof fn lemma_matches_first(s: Seq<char>, i: int, t: Seq<char>)
    requires
        matches_at(s, i, t),
        t.len() >= 1,
    ensures
        s[i] == t[0],
{
    assert(s[i + 0] == t[0]);
}

pub proof fn lemma_matches_char(s: Seq<char>, i: int, c: char)
    requires
        matches_at(s, i, seq![c]),
    ensures
        s[i] == c,
{
    assert(s[i + 0] == seq![c][0]);
    assert(seq![c][0] == c);
}

/// The rendered text of a well-formed document is non-empty and starts
/// with a character that no structural position mistakes for something
/// else.
pub proof fn lemma_text_first(v: JsonV)
    requires
        json_wf(v),
    ensures
        text_of(v).len() >= 1,
        !is_ws(text_of(v)[0]),
        text_of(v)[0] != ']',
        text_of(v)[0] != '}',
        text_of(v)[0] != ',',
        text_of(v)[0] != ':',
{
    match v {
        JsonV::Null => {},
        JsonV::Bool(b) => {},
        JsonV::Num(t) => {
            assert(num_end(t, 0) == Option::Some(t.len() as int));
            assert(t.len() >= 1);
            if t[0] != '-' {
                assert(is_digit_char(t[0]));
            }
        },
        JsonV::Str(c) => {
            assert(text_of(v)[0] == '"');
        },
        JsonV::Arr(items) => {
            assert(text_of(v)[0] == '[');
        },
        JsonV::Obj(ms) => {
            assert(text_of(v)[0] == '{');
        },
    }
}

/// A rendered value embedded before a delimiter parses to itself.
pub proof fn lemma_value_embed(v: JsonV, s: Seq<char>, i: int)
    requires
        json_wf(v),
        matches_at(s, i, text_of(v)),
        num_delim_at(s, i + text_of(v).len()),
    ensures
        spec_value(s, i) == Option::Some((v, i + text_of(v).len())),
    decreases v,
{
    let t = text_of(v);
    lemma_text_first(v);
    assert(s[i + 0] == t[0]);
    match v {
        JsonV::Null => {
            assert(t == seq!['n', 'u', 'l', 'l']);
            assert(s[i + 1] == 'u' && s[i + 2] == 'l' && s[i + 3] == 'l');
            assert(spec_value(s, i) == Option::Some((JsonV::Null, i + 4)));
        },
        JsonV::Bool(b) => {
            if b {
                assert(t == seq!['t', 'r', 'u', 'e']);
                assert(s[i + 1] == 'r' && s[i + 2] == 'u' && s[i + 3] == 'e');
                assert(spec_value(s, i) == Option::Some((JsonV::Bool(true), i + 4)));
            } else {
                assert(t == seq!['f', 'a', 'l', 's', 'e']);
                assert(s[i + 1] == 'a' && s[i + 2] == 'l' && s[i + 3] == 's' && s[i + 4] == 'e');
                assert(spec_value(s, i) == Option::Some((JsonV::Bool(false), i + 5)));
            }
        },
        JsonV::Num(tok) => {
            assert(t == tok);
            let c = s[i];
            assert(is_digit_char(c) || c == '-');
            assert(!is_digit_char('n') && !is_digit_char('t') && !is_digit_char('f')
                && !is_digit_char('"') && !is_digit_char('[') && !is_digit_char('{'));
            assert(c != 'n' && c != 't' && c != 'f' && c != '"' && c != '[' && c != '{');
            lemma_num_embed(tok, s, i);
            assert(s.subrange(i, i + tok.len()) =~= tok);
            assert(spec_value(s, i) == Option::Some((JsonV::Num(tok), i + tok.len())));
        },
        JsonV::Str(content) => {
            assert(t == quoted(content));
            assert(t =~= seq!['"'] + (esc_str(content) + seq!['"']));
            lemma_matches_split(s, i, seq!['"'], esc_str(content) + seq!['"']);
            lemma_string_embed(content, s, i + 1);
            assert(spec_value(s, i) == Option::Some((JsonV::Str(content), i + t.len())));
        },
        JsonV::Arr(items) => {
            assert(t == seq!['['] + text_of_items(items) + seq![']']);
            assert(t =~= seq!['['] + (text_of_items(items) + seq![']']));
            lemma_matches_split(s, i, seq!['['], text_of_items(items) + seq![']']);
            let n = text_of_items(items).len() as int;
            assert(s[i + 1 + n] == (text_of_items(items) + seq![']'])[n]);
            assert(s[i + 1 + n] == ']');
            crate::json::lemma_wf_list_char(items);
            if items.len() == 0 {
                assert(items =~= Seq::<JsonV>::empty());
                assert(text_of_items(items) == Seq::<char>::empty());
                assert(s[i + 1] == ']');
                lemma_ws_end_id(s, i + 1);
                assert(spec_value(s, i) == Option::Some((JsonV::Arr(items), i + 2)));
            } else {
                assert(json_wf(items[0]));
                lemma_text_first(items[0]);
                assert(text_of_items(items)[0] == text_of(items[0])[0]);
                lemma_matches_first(s, i + 1, text_of_items(items) + seq![']']);
                assert((text_of_items(items) + seq![']'])[0] == text_of_items(items)[0]);
                assert(s[i + 1] == text_of(items[0])[0]);
                lemma_ws_end_id(s, i + 1);
                assert(s[i + 1] != ']');
                lemma_items_embed(items, s, i + 1);
                assert(spec_value(s, i) == Option::Some((JsonV::Arr(items), i + t.len())));
            }
        },
        JsonV::Obj(ms) => {
            assert(t == seq!['{'] + text_of_members(ms) + seq!['}']);
            assert(t =~= seq!['{'] + (text_of_members(ms) + seq!['}']));
            lemma_matches_split(s, i, seq!['{'], text_of_members(ms) + seq!['}']);
            let n = text_of_members(ms).len() as int;
            assert(s[i + 1 + n] == (text_of_members(ms) + seq!['}'])[n]);
            assert(s[i + 1 + n] == '}');
            crate::json::lemma_wf_members_char(ms);
            if ms.len() == 0 {
                assert(ms =~= Seq::<(Seq<char>, JsonV)>::empty());
                assert(text_of_members(ms) == Seq::<char>::empty());
                assert(s[i + 1] == '}');
                lemma_ws_end_id(s, i + 1);
                assert(spec_value(s, i) == Option::Some((JsonV::Obj(ms), i + 2)));
            } else {
                assert(text_of_members(ms)[0] == quoted(ms[0].0)[0]);
                assert(quoted(ms[0].0)[0] == '"');
                lemma_matches_first(s, i + 1, text_of_members(ms) + seq!['}']);
                assert((text_of_members(ms) + seq!['}'])[0] == text_of_members(ms)[0]);
                assert(s[i + 1] == '"');
                lemma_ws_end_id(s, i + 1);
                assert(s[i + 1] != '}');
                lemma_members_embed(ms, s, i + 1);
                assert(spec_value(s, i) == Option::Some((JsonV::Obj(ms), i + t.len())));
            }
        },
    }
}

/// Rendered array elements followed by the closing bracket parse to the
/// elements.
pub proof fn lemma_items_embed(items: Seq<JsonV>, s: Seq<char>, i: int)
    requires
        items.len() >= 1,
        forall|k: int| 0 <= k && k < items.len() ==> json_wf(#[trigger] items[k]),
        matches_at(s, i, text_of_items(items) + seq![']']),
    ensures
        spec_items(s, i) == Option::Some((items, i + text_of_items(items).len())),
    decreases items,
{
    let v0 = items[0];
    assert(json_wf(v0));
    let a = text_of(v0);
    if items.len() == 1 {
        assert(text_of_items(items) == a);
        lemma_matches_split(s, i, a, seq![']']);
        lemma_matches_char(s, i + a.len(), ']');
        assert(s[i + a.len()] == ']');
        lemma_value_embed(v0, s, i);
        let j = i + a.len();
        lemma_ws_end_id(s, j);
        assert(s[j] != ',');
        assert(seq![v0] =~= items);
        assert(spec_items(s, i) == Option::Some((items, j)));
    } else {
        let rest = items.drop_first();
        assert(text_of_items(items) == a + seq![','] + text_of_items(rest));
        assert(text_of_items(items) + seq![']'] =~= a + (seq![','] + (text_of_items(rest)
            + seq![']'])));
        lemma_matches_split(s, i, a, seq![','] + (text_of_items(rest) + seq![']']));
        let j = i + a.len();
        lemma_matches_split(s, j, seq![','], text_of_items(rest) + seq![']']);
        lemma_matches_char(s, j, ',');
        assert(s[j] == ',');
        lemma_value_embed(v0, s, i);
        lemma_ws_end_id(s, j);
        assert(rest.len() >= 1);
        assert(json_wf(rest[0]));
        lemma_text_first(rest[0]);
        assert(text_of_items(rest)[0] == text_of(rest[0])[0]);
        lemma_matches_first(s, j + 1, text_of_items(rest) + seq![']']);
        assert((text_of_items(rest) + seq![']'])[0] == text_of_items(rest)[0]);
        assert(s[j + 1] == text_of_items(rest)[0]);
        lemma_ws_end_id(s, j + 1);
        assert forall|k: int| 0 <= k && k < rest.len() implies json_wf(#[trigger] rest[k]) by {
            assert(rest[k] == items[k + 1]);
        }
        lemma_items_embed(rest, s, j + 1);
        assert(seq![v0] + rest =~= items);
        assert(spec_items(s, i) == Option::Some((items, i + text_of_items(items).len())));
    }
}

/// Rendered object members followed by the closing brace parse to the
/// members.
pub proof fn lemma_members_embed(ms: Seq<(Seq<char>, JsonV)>, s: Seq<char>, i: int)
    requires
        ms.len() >= 1,
        forall|k: int| 0 <= k && k < ms.len() ==> json_wf(#[trigger] ms[k].1),
        matches_at(s, i, text_of_members(ms) + seq!['}']),
    ensures
        spec_members(s, i) == Option::Some((ms, i + text_of_members(ms).len())),
    decreases ms,
{
    let key = ms[0].0;
    let v0 = ms[0].1;
    assert(json_wf(v0));
    let head = quoted(key) + seq![':'] + text_of(v0);
    if ms.len() == 1 {
        assert(text_of_members(ms) == head);
        assert(head + seq!['}'] =~= seq!['"'] + ((esc_str(key) + seq!['"']) + (seq![':']
            + (text_of(v0) + seq!['}']))));
        lemma_matches_split(s, i, seq!['"'], (esc_str(key) + seq!['"']) + (seq![':'] + (text_of(
            v0,
        ) + seq!['}'])));
        lemma_matches_split(s, i + 1, esc_str(key) + seq!['"'], seq![':'] + (text_of(v0)
            + seq!['}']));
        let p = i + 1 + esc_str(key).len() + 1;
        lemma_matches_split(s, p, seq![':'], text_of(v0) + seq!['}']);
        lemma_matches_split(s, p + 1, text_of(v0), seq!['}']);
        lemma_matches_char(s, i, '"');
        assert(s[i] == '"');
        lemma_string_embed(key, s, i + 1);
        lemma_matches_char(s, p, ':');
        assert(s[p] == ':');
        lemma_ws_end_id(s, p);
        lemma_text_first(v0);
        lemma_matches_first(s, p + 1, text_of(v0));
        assert(s[p + 1] == text_of(v0)[0]);
        lemma_ws_end_id(s, p + 1);
        let e = p + 1 + text_of(v0).len();
        lemma_matches_char(s, e, '}');
        assert(s[e] == '}');
        lemma_value_embed(v0, s, p + 1);
        lemma_ws_end_id(s, e);
        assert(s[e] != ',');
        assert(seq![(key, v0)] =~= ms);
        assert(spec_members(s, i) == Option::Some((ms, i + text_of_members(ms).len())));
    } else {
        let rest = ms.drop_first();
        assert(text_of_members(ms) == head + seq![','] + text_of_members(rest));
        assert(text_of_members(ms) + seq!['}'] =~= seq!['"'] + ((esc_str(key) + seq!['"'])
            + (seq![':'] + (text_of(v0) + (seq![','] + (text_of_members(rest) + seq!['}']))))));
        lemma_matches_split(s, i, seq!['"'], (esc_str(key) + seq!['"']) + (seq![':'] + (text_of(
            v0,
        ) + (seq![','] + (text_of_members(rest) + seq!['}'])))));
        lemma_matches_split(s, i + 1, esc_str(key) + seq!['"'], seq![':'] + (text_of(v0) + (
        seq![','] + (text_of_members(rest) + seq!['}']))));
        let p = i + 1 + esc_str(key).len() + 1;
        lemma_matches_split(s, p, seq![':'], text_of(v0) + (seq![','] + (text_of_members(rest)
            + seq!['}'])));
        lemma_matches_split(s, p + 1, text_of(v0), seq![','] + (text_of_members(rest)
            + seq!['}']));
        let e = p + 1 + text_of(v0).len();
        lemma_matches_split(s, e, seq![','], text_of_members(rest) + seq!['}']);
        lemma_matches_char(s, i, '"');
        assert(s[i] == '"');
        lemma_string_embed(key, s, i + 1);
        lemma_matches_char(s, p, ':');
        assert(s[p] == ':');
        lemma_ws_end_id(s, p);
        lemma_text_first(v0);
        lemma_matches_first(s, p + 1, text_of(v0));
        assert(s[p + 1] == text_of(v0)[0]);
        lemma_ws_end_id(s, p + 1);
        lemma_matches_char(s, e, ',');
        assert(s[e] == ',');
        lemma_value_embed(v0, s, p + 1);
        lemma_ws_end_id(s, e);
        assert(rest.len() >= 1);
        assert(text_of_members(rest)[0] == quoted(rest[0].0)[0]);
        assert(quoted(rest[0].0)[0] == '"');
        lemma_matches_first(s, e + 1, text_of_members(rest) + seq!['}']);
        assert((text_of_members(rest) + seq!['}'])[0] == text_of_members(rest)[0]);
        assert(s[e + 1] == '"');
        lemma_ws_end_id(s, e + 1);
        assert forall|k: int| 0 <= k && k < rest.len() implies json_wf(#[trigger] rest[k].1) by {
            assert(rest[k] == ms[k + 1]);
        }
        lemma_members_embed(rest, s, e + 1);
        assert(seq![(key, v0)] + rest =~= ms);
        assert(spec_members(s, i) == Option::Some((ms, i + text_of_members(ms).len())));
    }
}

/// Law: the serializer and the parser invert each other.  Parsing the
/// rendered text of any well-formed JSON document yields the document.
pub proof fn lemma_parse_of_emit(v: JsonV)
    requires
        json_wf(v),
    ensures
        spec_json(text_of(v)) == Option::Some(v),
{
    let s = text_of(v);
    lemma_text_first(v);
    assert(matches_at(s, 0, s));
    lemma_ws_end_id(s, 0);
    lemma_value_embed(v, s, 0);
    lemma_ws_end_id(s, s.len() as int);
}

} // verus!
