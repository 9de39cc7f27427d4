//! Serialization of JSON documents to text, with the rendering function
//! `text_of` as the specification.

use vstd::prelude::*;
use crate::chars::push_char;
use crate::json::Json;
use crate::json::JsonV;
use crate::num::digit_char;

verus! {

broadcast use {
    vstd::seq::group_seq_axioms,
    vstd::seq_lib::group_seq_lib_default,
    vstd::std_specs::vec::group_vec_axioms,
};

pub open spec fn hex_digit_char(d: nat) -> char {
    if d < 10 {
        digit_char(d)
    } else if d == 10 {
        'a'
    } else if d == 11 {
        'b'
    } else if d == 12 {
        'c'
    } else if d == 13 {
        'd'
    } else if d == 14 {
        'e'
    } else {
        'f'
    }
}

/// Rendering of one character inside a JSON string literal.
pub open spec fn esc_char(c: char) -> Seq<char> {
    if c == '"' {
        seq!['\\', '"']
    } else if c == '\\' {
        seq!['\\', '\\']
    } else if c as u32 == 8 {
        seq!['\\', 'b']
    } else if c as u32 == 9 {
        seq!['\\', 't']
    } else if c as u32 == 10 {
        seq!['\\', 'n']
    } else if c as u32 == 12 {
        seq!['\\', 'f']
    } else if c as u32 == 13 {
        seq!['\\', 'r']
    } else if (c as u32) < 32 {
        seq!['\\', 'u', '0', '0', hex_digit_char((c as u32 / 16) as nat), hex_digit_char(
            (c as u32 % 16) as nat,
        )]
    } else {
        seq![c]
    }
}

/// Rendering of string content, character by character.
pub open spec fn esc_str(s: Seq<char>) -> Seq<char>
    decreases s.len(),
{
    if s.len() == 0 {
        Seq::empty()
    } else {
        esc_char(s[0]) + esc_str(s.drop_first())
    }
}

/// Rendering of a JSON string literal, quotes included.
pub open spec fn quoted(s: Seq<char>) -> Seq<char> {
    seq!['"'] + esc_str(s) + seq!['"']
}

/// The serialized text of a JSON document.
pub open spec fn text_of(v: JsonV) -> Seq<char>
    decreases v,
{
    match v {
        JsonV::Null => seq!['n', 'u', 'l', 'l'],
        JsonV::Bool(b) => if b {
            seq!['t', 'r', 'u', 'e']
        } else {
            seq!['f', 'a', 'l', 's', 'e']
        },
        JsonV::Num(t) => t,
        JsonV::Str(s) => quoted(s),
        JsonV::Arr(items) => seq!['['] + text_of_items(items) + seq![']'],
        JsonV::Obj(ms) => seq!['{'] + text_of_members(ms) + seq!['}'],
    }
}

/// The serialized text of array elements, comma separated.
pub open spec fn text_of_items(items: Seq<JsonV>) -> Seq<char>
    decreases items,
{
    if items.len() == 0 {
        Seq::empty()
    } else if items.len() == 1 {
        text_of(items[0])
    } else {
        text_of(items[0]) + seq![','] + text_of_items(items.drop_first())
    }
}

/// The serialized text of object members, comma separated.
pub open spec fn text_of_members(ms: Seq<(Seq<char>, JsonV)>) -> Seq<char>
    decreases ms,
{
    if ms.len() == 0 {
        Seq::empty()
    } else if ms.len() == 1 {
        quoted(ms[0].0) + seq![':'] + text_of(ms[0].1)
    } else {
        quoted(ms[0].0) + seq![':'] + text_of(ms[0].1) + seq![','] + text_of_members(
            ms.drop_first(),
        )
    }
}

pub proof fn lemma_esc_str_snoc(s: Seq<char>, c: char)
    ensures
        esc_str(s.push(c)) == esc_str(s) + esc_char(c),
    decreases s.len(),
{
    let t = s.push(c);
    if s.len() == 0 {
        assert(t.drop_first() =~= Seq::<char>::empty());
        assert(t[0] == c);
        assert(esc_str(t) == esc_char(c) + esc_str(Seq::<char>::empty()));
        assert(esc_str(t) =~= esc_str(s) + esc_char(c));
    } else {
        assert(t.drop_first() =~= s.drop_first().push(c));
        assert(t[0] == s[0]);
        lemma_esc_str_snoc(s.drop_first(), c);
        assert(esc_str(t) == esc_char(s[0]) + (esc_str(s.drop_first()) + esc_char(c)));
        vstd::seq_lib::lemma_concat_associative(
            esc_char(s[0]),
            esc_str(s.drop_first()),
            esc_char(c),
        );
        assert(esc_str(t) == (esc_char(s[0]) + esc_str(s.drop_first())) + esc_char(c));
        assert(esc_str(s) == esc_char(s[0]) + esc_str(s.drop_first()));
    }
}

pub proof fn lemma_items_snoc(items: Seq<JsonV>, x: JsonV)
    ensures
        text_of_items(items.push(x)) == if items.len() == 0 {
            text_of(x)
        } else {
            text_of_items(items) + seq![','] + text_of(x)
        },
    decreases items.len(),
{
    let t = items.push(x);
    if items.len() == 0 {
        assert(t[0] == x);
        assert(text_of_items(t) == text_of(x));
    } else if items.len() == 1 {
        assert(t.drop_first() =~= seq![x]);
        assert(t[0] == items[0]);
        assert(text_of_items(t.drop_first()) == text_of(x));
        assert(text_of_items(t) == text_of(items[0]) + seq![','] + text_of(x));
        assert(text_of_items(items) == text_of(items[0]));
    } else {
        assert(t.drop_first() =~= items.drop_first().push(x));
        assert(t[0] == items[0]);
        lemma_items_snoc(items.drop_first(), x);
        assert(text_of_items(t) == text_of(items[0]) + seq![','] + (text_of_items(
            items.drop_first(),
        ) + seq![','] + text_of(x)));
        assert(text_of_items(items) == text_of(items[0]) + seq![','] + text_of_items(
            items.drop_first(),
        ));
        assert(text_of_items(t) =~= text_of_items(items) + seq![','] + text_of(x));
    }
}

pub proof fn lemma_members_snoc(ms: Seq<(Seq<char>, JsonV)>, x: (Seq<char>, JsonV))
    ensures
        text_of_members(ms.push(x)) == if ms.len() == 0 {
            quoted(x.0) + seq![':'] + text_of(x.1)
        } else {
            text_of_members(ms) + seq![','] + quoted(x.0) + seq![':'] + text_of(x.1)
        },
    decreases ms.len(),
{
    let t = ms.push(x);
    if ms.len() == 0 {
        assert(t[0] == x);
        assert(text_of_members(t) == quoted(x.0) + seq![':'] + text_of(x.1));
    } else if ms.len() == 1 {
        assert(t.drop_first() =~= seq![x]);
        assert(t[0] == ms[0]);
        assert(text_of_members(t.drop_first()) == quoted(x.0) + seq![':'] + text_of(x.1));
        assert(text_of_members(t) == quoted(ms[0].0) + seq![':'] + text_of(ms[0].1) + seq![',']
            + (quoted(x.0) + seq![':'] + text_of(x.1)));
        assert(text_of_members(ms) == quoted(ms[0].0) + seq![':'] + text_of(ms[0].1));
        assert(text_of_members(t) =~= text_of_members(ms) + seq![','] + quoted(x.0) + seq![':']
            + text_of(x.1));
    } else {
        assert(t.drop_first() =~= ms.drop_first().push(x));
        assert(t[0] == ms[0]);
        lemma_members_snoc(ms.drop_first(), x);
        assert(text_of_members(t) == quoted(ms[0].0) + seq![':'] + text_of(ms[0].1) + seq![',']
            + (text_of_members(ms.drop_first()) + seq![','] + quoted(x.0) + seq![':'] + text_of(
            x.1,
        )));
        assert(text_of_members(ms) == quoted(ms[0].0) + seq![':'] + text_of(ms[0].1) + seq![',']
            + text_of_members(ms.drop_first()));
        assert(text_of_members(t) =~= text_of_members(ms) + seq![','] + quoted(x.0) + seq![':']
            + text_of(x.1));
    }
}

fn hex_digit_x(d: u32) -> (r: char)
    requires
        d < 16,
    ensures
        r == hex_digit_char(d as nat),
{
    if d < 10 {
        crate::num::digit_char_x(d)
    } else if d == 10 {
        'a'
    } else if d == 11 {
        'b'
    } else if d == 12 {
        'c'
    } else if d == 13 {
        'd'
    } else if d == 14 {
        'e'
    } else {
        'f'
    }
}

/// Appends the rendering of string content `s`, quotes included.
fn emit_string_into(s: &str, out: &mut String)
    ensures
        final(out)@ == old(out)@ + quoted(s@),
{
    push_char(out, '"');
    let n = s.unicode_len();
    let mut i: usize = 0;
    while i < n
        invariant
            i <= n,
            n == s@.len(),
            out@ == old(out)@ + seq!['"'] + esc_str(s@.subrange(0, i as int)),
        decreases n - i,
    {
        let c = s.get_char(i);
        let ghost pre = s@.subrange(0, i as int);
        proof {
            lemma_esc_str_snoc(pre, c);
            assert(s@.subrange(0, i as int + 1) =~= pre.push(c));
        }
        if c == '"' {
            push_char(out, '\\');
            push_char(out, '"');
        } else if c == '\\' {
            push_char(out, '\\');
            push_char(out, '\\');
        } else if c as u32 == 8 {
            push_char(out, '\\');
            push_char(out, 'b');
        } else if c as u32 == 9 {
            push_char(out, '\\');
            push_char(out, 't');
        } else if c as u32 == 10 {
            push_char(out, '\\');
            push_char(out, 'n');
        } else if c as u32 == 12 {
            push_char(out, '\\');
            push_char(out, 'f');
        } else if c as u32 == 13 {
            push_char(out, '\\');
            push_char(out, 'r');
        } else if (c as u32) < 32 {
            push_char(out, '\\');
            push_char(out, 'u');
            push_char(out, '0');
            push_char(out, '0');
            push_char(out, hex_digit_x(c as u32 / 16));
            push_char(out, hex_digit_x(c as u32 % 16));
        } else {
            push_char(out, c);
        }
        i = i + 1;
        proof {
            assert(out@ =~= old(out)@ + seq!['"'] + esc_str(s@.subrange(0, i as int)));
        }
    }
    proof {
        assert(s@.subrange(0, n as int) =~= s@);
    }
    push_char(out, '"');
    proof {
        assert(out@ =~= old(out)@ + quoted(s@));
    }
}

/// Appends the serialized text of `j`.
#[verifier::loop_isolation(false)]
#[verifier::rlimit(60)]
fn emit_into(j: &Json, out: &mut String)
    ensures
        final(out)@ == old(out)@ + text_of(j@),
    decreases j,
{
    match j {
        Json::Null => {
            push_char(out, 'n');
            push_char(out, 'u');
            push_char(out, 'l');
            push_char(out, 'l');
            proof {
                assert(out@ =~= old(out)@ + text_of(j@));
            }
        },
        Json::Bool(b) => {
            if *b {
                push_char(out, 't');
                push_char(out, 'r');
                push_char(out, 'u');
                push_char(out, 'e');
            } else {
                push_char(out, 'f');
                push_char(out, 'a');
                push_char(out, 'l');
                push_char(out, 's');
                push_char(out, 'e');
            }
            proof {
                assert(out@ =~= old(out)@ + text_of(j@));
            }
        },
        Json::Num(t) => {
            out.append(t.as_str());
        },
        Json::Str(s) => {
            emit_string_into(s.as_str(), out);
        },
        Json::Arr(v) => {
            let ghost vs = crate::json::items_view(v@);
            proof {
                crate::json::lemma_items_view(v@);
                assert(j@ == JsonV::Arr(vs));
            }
            push_char(out, '[');
            let mut i: usize = 0;
            while i < v.len()
                invariant
                    i <= v.len(),
                    vs.len() == v.len(),
                    forall|k: int| 0 <= k && k < v.len() ==> vs[k] == #[trigger] v@[k]@,
                    out@ == old(out)@ + seq!['['] + text_of_items(vs.subrange(0, i as int)),
                decreases v.len() - i,
            {
                if i > 0 {
                    push_char(out, ',');
                }
                proof {
                    assert(decreases_to!(*j => *v));
                    assert(decreases_to!(*v => v@));
                    assert(decreases_to!(v@ => v@[i as int]));
                }
                emit_into(&v[i], out);
                proof {
                    lemma_items_snoc(vs.subrange(0, i as int), vs[i as int]);
                    assert(vs.subrange(0, i as int + 1) =~= vs.subrange(0, i as int).push(
                        vs[i as int],
                    ));
                }
                i = i + 1;
                proof {
                    assert(out@ =~= old(out)@ + seq!['['] + text_of_items(
                        vs.subrange(0, i as int),
                    ));
                }
            }
            proof {
                assert(vs.subrange(0, v.len() as int) =~= vs);
            }
            push_char(out, ']');
            proof {
                assert(out@ =~= old(out)@ + text_of(j@));
            }
        },
        Json::Obj(v) => {
            let ghost ws = crate::json::members_view(v@);
            proof {
                crate::json::lemma_members_view(v@);
                assert(j@ == JsonV::Obj(ws));
            }
            push_char(out, '{');
            let mut i: usize = 0;
            while i < v.len()
                invariant
                    i <= v.len(),
                    ws.len() == v.len(),
                    forall|k: int| 0 <= k && k < v.len() ==> #[trigger] ws[k] == (
                        v@[k].0@,
                        v@[k].1@,
                    ),
                    out@ == old(out)@ + seq!['{'] + text_of_members(ws.subrange(0, i as int)),
                decreases v.len() - i,
            {
                if i > 0 {
                    push_char(out, ',');
                }
                let m = &v[i];
                emit_string_into(m.0.as_str(), out);
                push_char(out, ':');
                proof {
                    assert(decreases_to!(*j => *v));
                    assert(decreases_to!(*v => v@));
                    assert(decreases_to!(v@ => v@[i as int]));
                    assert(decreases_to!(v@[i as int] => v@[i as int].1));
                }
                emit_into(&m.1, out);
                proof {
                    lemma_members_snoc(ws.subrange(0, i as int), ws[i as int]);
                    assert(ws.subrange(0, i as int + 1) =~= ws.subrange(0, i as int).push(
                        ws[i as int],
                    ));
                }
                i = i + 1;
                proof {
                    assert(out@ =~= old(out)@ + seq!['{'] + text_of_members(
                        ws.subrange(0, i as int),
                    ));
                }
            }
            proof {
                assert(ws.subrange(0, v.len() as int) =~= ws);
            }
            push_char(out, '}');
            proof {
                assert(out@ =~= old(out)@ + text_of(j@));
            }
        },
    }
}

/// The serialized text of `j`.
pub fn emit(j: &Json) -> (r: String)
    ensures
        r@ == text_of(j@),
{
    let mut out = String::new();
    emit_into(j, &mut out);
    out
}

} // verus!
