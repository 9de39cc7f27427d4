//! The JSON document model used on the wire: a ghost tree for contracts and
//! an executable tree that mirrors it.  Numbers carry their raw token text.

use vstd::prelude::*;
use crate::num::is_number_token;

verus! {

broadcast use vstd::seq::group_seq_axioms;

/// Ghost model of a JSON document.
#[verifier::ext_equal]
pub enum JsonV {
    Null,
    Bool(bool),
    Num(Seq<char>),
    Str(Seq<char>),
    Arr(Seq<JsonV>),
    Obj(Seq<(Seq<char>, JsonV)>),
}

/// A JSON document.  Object member order is kept; numbers hold their raw
/// token text, and strings hold decoded character content.
#[derive(Debug)]
pub enum Json {
    Null,
    Bool(bool),
    Num(String),
    Str(String),
    Arr(Vec<Json>),
    Obj(Vec<(String, Json)>),
}

impl View for Json {
    type V = JsonV;

    open spec fn view(&self) -> JsonV
        decreases self,
    {
        match self {
            Json::Null => JsonV::Null,
            Json::Bool(b) => JsonV::Bool(*b),
            Json::Num(s) => JsonV::Num(s@),
            Json::Str(s) => JsonV::Str(s@),
            Json::Arr(v) => JsonV::Arr(items_view(v@)),
            Json::Obj(v) => JsonV::Obj(members_view(v@)),
        }
    }
}

/// The views of a sequence of JSON documents.
pub open spec fn items_view(v: Seq<Json>) -> Seq<JsonV>
    decreases v,
{
    if v.len() == 0 {
        Seq::empty()
    } else {
        items_view(v.drop_last()).push(v.last()@)
    }
}

/// The views of a sequence of object members.
pub open spec fn members_view(v: Seq<(String, Json)>) -> Seq<(Seq<char>, JsonV)>
    decreases v,
{
    if v.len() == 0 {
        Seq::empty()
    } else {
        members_view(v.drop_last()).push((v.last().0@, v.last().1@))
    }
}

pub proof fn lemma_items_view(v: Seq<Json>)
    ensures
        items_view(v).len() == v.len(),
        forall|k: int| 0 <= k && k < v.len() ==> #[trigger] items_view(v)[k] == v[k]@,
    decreases v.len(),
{
    if v.len() > 0 {
        lemma_items_view(v.drop_last());
        assert(items_view(v) == items_view(v.drop_last()).push(v.last()@));
        assert forall|k: int| 0 <= k && k < v.len() implies #[trigger] items_view(v)[k] == v[k]@ by {
            if k < v.len() - 1 {
                assert(items_view(v)[k] == items_view(v.drop_last())[k]);
                assert(v.drop_last()[k] == v[k]);
            } else {
                assert(items_view(v)[k] == v.last()@);
            }
        }
    }
}

pub proof fn lemma_members_view(v: Seq<(String, Json)>)
    ensures
        members_view(v).len() == v.len(),
        forall|k: int| 0 <= k && k < v.len() ==> #[trigger] members_view(v)[k] == (
            v[k].0@,
            v[k].1@,
        ),
    decreases v.len(),
{
    if v.len() > 0 {
        lemma_members_view(v.drop_last());
        assert(members_view(v) == members_view(v.drop_last()).push((v.last().0@, v.last().1@)));
        assert forall|k: int| 0 <= k && k < v.len() implies #[trigger] members_view(v)[k] == (
            v[k].0@,
            v[k].1@,
        ) by {
            if k < v.len() - 1 {
                assert(members_view(v)[k] == members_view(v.drop_last())[k]);
                assert(v.drop_last()[k] == v[k]);
            } else {
                assert(members_view(v)[k] == (v.last().0@, v.last().1@));
            }
        }
    }
}

/// Well-formedness: every number in the tree is a valid number token.
pub open spec fn json_wf(v: JsonV) -> bool
    decreases v,
{
    match v {
        JsonV::Null => true,
        JsonV::Bool(_) => true,
        JsonV::Num(t) => is_number_token(t),
        JsonV::Str(_) => true,
        JsonV::Arr(items) => json_wf_list(items),
        JsonV::Obj(ms) => json_wf_members(ms),
    }
}

pub open spec fn json_wf_list(items: Seq<JsonV>) -> bool
    decreases items,
{
    if items.len() == 0 {
        true
    } else {
        json_wf(items[0]) && json_wf_list(items.drop_first())
    }
}

pub open spec fn json_wf_members(ms: Seq<(Seq<char>, JsonV)>) -> bool
    decreases ms,
{
    if ms.len() == 0 {
        true
    } else {
        json_wf(ms[0].1) && json_wf_members(ms.drop_first())
    }
}

/// A list is well-formed exactly when each of its elements is.
pub proof fn lemma_wf_list_char(items: Seq<JsonV>)
    ensures
        json_wf_list(items) == (forall|i: int|
            0 <= i && i < items.len() ==> #[trigger] json_wf(items[i])),
    decreases items.len(),
{
    if items.len() > 0 {
        lemma_wf_list_char(items.drop_first());
        if json_wf_list(items) {
            assert forall|i: int| 0 <= i && i < items.len() implies #[trigger] json_wf(
                items[i],
            ) by {
                if i > 0 {
                    assert(items.drop_first()[i - 1] == items[i]);
                    assert(json_wf(items.drop_first()[i - 1]));
                }
            }
        }
        if forall|i: int| 0 <= i && i < items.len() ==> #[trigger] json_wf(items[i]) {
            assert(json_wf(items[0]));
            assert forall|i: int| 0 <= i && i < items.drop_first().len() implies #[trigger] json_wf(
                items.drop_first()[i],
            ) by {
                assert(items.drop_first()[i] == items[i + 1]);
            }
            assert(json_wf_list(items.drop_first()));
        }
    }
}

/// Object members are well-formed exactly when each member's value is.
pub proof fn lemma_wf_members_char(ms: Seq<(Seq<char>, JsonV)>)
    ensures
        json_wf_members(ms) == (forall|i: int|
            0 <= i && i < ms.len() ==> #[trigger] json_wf(ms[i].1)),
    decreases ms.len(),
{
    if ms.len() > 0 {
        lemma_wf_members_char(ms.drop_first());
        if json_wf_members(ms) {
            assert forall|i: int| 0 <= i && i < ms.len() implies #[trigger] json_wf(ms[i].1) by {
                if i > 0 {
                    assert(ms.drop_first()[i - 1] == ms[i]);
                    assert(json_wf(ms.drop_first()[i - 1].1));
                }
            }
        }
        if forall|i: int| 0 <= i && i < ms.len() ==> #[trigger] json_wf(ms[i].1) {
            assert(json_wf(ms[0].1));
            assert forall|i: int| 0 <= i && i < ms.drop_first().len() implies #[trigger] json_wf(
                ms.drop_first()[i].1,
            ) by {
                assert(ms.drop_first()[i] == ms[i + 1]);
            }
            assert(json_wf_members(ms.drop_first()));
        }
    }
}

pub proof fn lemma_items_view_push(v: Seq<Json>, x: Json)
    ensures
        items_view(v.push(x)) == items_view(v).push(x@),
{
    assert(v.push(x).drop_last() =~= v);
    assert(v.push(x).last() == x);
}

pub proof fn lemma_members_view_push(v: Seq<(String, Json)>, x: (String, Json))
    ensures
        members_view(v.push(x)) == members_view(v).push((x.0@, x.1@)),
{
    assert(v.push(x).drop_last() =~= v);
    assert(v.push(x).last() == x);
}

} // verus!
