//! Interpreting the provider's response: reading the response envelope from
//! its wire JSON, classifying failures, and extracting the first textual
//! answer.

use vstd::prelude::*;
use crate::chars::eq_str;
use crate::json::Json;
use crate::json::JsonV;
use crate::json::members_view;
use crate::json::items_view;
use crate::json::lemma_members_view;
use crate::json::lemma_items_view;
use crate::num::int_token_val;
use crate::num::digits_capped;
use crate::num::u32_to_dec;
use crate::parse::spec_json;
use crate::request::Content;
use crate::request::ContentV;
use crate::request::Part;
use crate::request::PartV;
use crate::request::parts_view;
use crate::request::lemma_parts_view;
use crate::request::dec_text;
use crate::request::dec_part_ms;
use crate::request::dec_part;
use crate::request::dec_parts_list;
use crate::request::dec_content_ms;
use crate::request::dec_content;

verus! {

broadcast use {vstd::seq::group_seq_axioms, vstd::seq_lib::group_seq_lib_default};

/// Ghost model of a provider-reported error.
#[verifier::ext_equal]
pub struct ApiErrorV {
    pub code: u16,
    pub message: Seq<char>,
}

/// A structured error reported by the provider: a numeric code and a
/// message passed through unmodified.
#[derive(Debug)]
pub struct ApiError {
    pub code: u16,
    pub message: String,
}

impl View for ApiError {
    type V = ApiErrorV;

    open spec fn view(&self) -> ApiErrorV {
        ApiErrorV { code: self.code, message: self.message@ }
    }
}

/// Ghost model of one candidate answer.
#[verifier::ext_equal]
pub struct CandidateV {
    pub content: Option<ContentV>,
}

/// One candidate answer, optionally carrying a content block.
#[derive(Debug)]
pub struct Candidate {
    pub content: Option<Content>,
}

impl View for Candidate {
    type V = CandidateV;

    open spec fn view(&self) -> CandidateV {
        CandidateV {
            content: match self.content {
                Option::Some(c) => Option::Some(c@),
                Option::None => Option::None,
            },
        }
    }
}

/// The views of a sequence of candidates.
pub open spec fn cands_view(v: Seq<Candidate>) -> Seq<CandidateV>
    decreases v.len(),
{
    if v.len() == 0 {
        Seq::empty()
    } else {
        cands_view(v.drop_last()).push(v.last()@)
    }
}

pub proof fn lemma_cands_view(v: Seq<Candidate>)
    ensures
        cands_view(v).len() == v.len(),
        forall|k: int| 0 <= k && k < v.len() ==> #[trigger] cands_view(v)[k] == v[k]@,
    decreases v.len(),
{
    if v.len() > 0 {
        lemma_cands_view(v.drop_last());
        assert forall|k: int| 0 <= k && k < v.len() implies #[trigger] cands_view(v)[k]
            == v[k]@ by {
            if k < v.len() - 1 {
                assert(cands_view(v)[k] == cands_view(v.drop_last())[k]);
                assert(v.drop_last()[k] == v[k]);
            } else {
                assert(cands_view(v)[k] == v.last()@);
            }
        }
    }
}

/// Ghost model of the response envelope.
#[verifier::ext_equal]
pub struct ResponseEnvelopeV {
    pub candidates: Option<Seq<CandidateV>>,
    pub error: Option<ApiErrorV>,
}

/// The response envelope: a list of candidate answers, a structured error,
/// both, or neither — the two fields are independent of the HTTP status.
#[derive(Debug)]
pub struct ResponseEnvelope {
    pub candidates: Option<Vec<Candidate>>,
    pub error: Option<ApiError>,
}

impl View for ResponseEnvelope {
    type V = ResponseEnvelopeV;

    open spec fn view(&self) -> ResponseEnvelopeV {
        ResponseEnvelopeV {
            candidates: match self.candidates {
                Option::Some(cs) => Option::Some(cands_view(cs@)),
                Option::None => Option::None,
            },
            error: match self.error {
                Option::Some(e) => Option::Some(e@),
                Option::None => Option::None,
            },
        }
    }
}

/// A u16 read from a JSON number: an all-digit token of value at most
/// `u16::MAX`.
pub open spec fn dec_u16(v: JsonV) -> Option<u16> {
    match v {
        JsonV::Num(t) => match int_token_val(t, 65535) {
            Option::Some(n) => Option::Some(n as u16),
            Option::None => Option::None,
        },
        _ => Option::None,
    }
}

pub open spec fn dec_cand_ms(
    ms: Seq<(Seq<char>, JsonV)>,
    content: Option<Option<ContentV>>,
) -> Option<CandidateV>
    decreases ms.len(),
{
    if ms.len() == 0 {
        Option::Some(
            CandidateV {
                content: match content {
                    Option::Some(c) => c,
                    Option::None => Option::None,
                },
            },
        )
    } else {
        let k = ms[0].0;
        let v = ms[0].1;
        if k == "content"@ {
            if content is Some {
                Option::None
            } else {
                match v {
                    JsonV::Null => dec_cand_ms(ms.drop_first(), Option::Some(Option::None)),
                    _ => match dec_content(v) {
                        Option::Some(c) => dec_cand_ms(
                            ms.drop_first(),
                            Option::Some(Option::Some(c)),
                        ),
                        Option::None => Option::None,
                    },
                }
            }
        } else {
            dec_cand_ms(ms.drop_first(), content)
        }
    }
}

/// One candidate read from its wire JSON: an object whose `content` member
/// is optional.
pub open spec fn dec_candidate(v: JsonV) -> Option<CandidateV> {
    match v {
        JsonV::Obj(ms) => dec_cand_ms(ms, Option::None),
        _ => Option::None,
    }
}

pub open spec fn dec_cands_list(items: Seq<JsonV>) -> Option<Seq<CandidateV>>
    decreases items.len(),
{
    if items.len() == 0 {
        Option::Some(Seq::empty())
    } else {
        match dec_candidate(items[0]) {
            Option::Some(c) => match dec_cands_list(items.drop_first()) {
                Option::Some(rest) => Option::Some(seq![c] + rest),
                Option::None => Option::None,
            },
            Option::None => Option::None,
        }
    }
}

pub open spec fn dec_err_ms(
    ms: Seq<(Seq<char>, JsonV)>,
    code: Option<u16>,
    message: Option<Seq<char>>,
) -> Option<ApiErrorV>
    decreases ms.len(),
{
    if ms.len() == 0 {
        match (code, message) {
            (Option::Some(c), Option::Some(m)) => Option::Some(ApiErrorV { code: c, message: m }),
            _ => Option::None,
        }
    } else {
        let k = ms[0].0;
        let v = ms[0].1;
        if k == "code"@ {
            if code is Some {
                Option::None
            } else {
                match dec_u16(v) {
                    Option::Some(c) => dec_err_ms(ms.drop_first(), Option::Some(c), message),
                    Option::None => Option::None,
                }
            }
        } else if k == "message"@ {
            if message is Some {
                Option::None
            } else {
                match dec_text(v) {
                    Option::Some(m) => dec_err_ms(ms.drop_first(), code, Option::Some(m)),
                    Option::None => Option::None,
                }
            }
        } else {
            dec_err_ms(ms.drop_first(), code, message)
        }
    }
}

/// A provider error read from its wire JSON: an object with a required
/// numeric `code` and a required `message` string.
pub open spec fn dec_api_error(v: JsonV) -> Option<ApiErrorV> {
    match v {
        JsonV::Obj(ms) => dec_err_ms(ms, Option::None, Option::None),
        _ => Option::None,
    }
}

pub open spec fn dec_resp_ms(
    ms: Seq<(Seq<char>, JsonV)>,
    candidates: Option<Option<Seq<CandidateV>>>,
    error: Option<Option<ApiErrorV>>,
) -> Option<ResponseEnvelopeV>
    decreases ms.len(),
{
    if ms.len() == 0 {
        Option::Some(
            ResponseEnvelopeV {
                candidates: match candidates {
                    Option::Some(c) => c,
                    Option::None => Option::None,
                },
                error: match error {
                    Option::Some(e) => e,
                    Option::None => Option::None,
                },
            },
        )
    } else {
        let k = ms[0].0;
        let v = ms[0].1;
        if k == "candidates"@ {
            if candidates is Some {
                Option::None
            } else {
                match v {
                    JsonV::Null => dec_resp_ms(ms.drop_first(), Option::Some(Option::None), error),
                    JsonV::Arr(items) => match dec_cands_list(items) {
                        Option::Some(cs) => dec_resp_ms(
                            ms.drop_first(),
                            Option::Some(Option::Some(cs)),
                            error,
                        ),
                        Option::None => Option::None,
                    },
                    _ => Option::None,
                }
            }
        } else if k == "error"@ {
            if error is Some {
                Option::None
            } else {
                match v {
                    JsonV::Null => dec_resp_ms(
                        ms.drop_first(),
                        candidates,
                        Option::Some(Option::None),
                    ),
                    _ => match dec_api_error(v) {
                        Option::Some(e) => dec_resp_ms(
                            ms.drop_first(),
                            candidates,
                            Option::Some(Option::Some(e)),
                        ),
                        Option::None => Option::None,
                    },
                }
            }
        } else {
            dec_resp_ms(ms.drop_first(), candidates, error)
        }
    }
}

/// The response envelope read from its wire JSON: an object whose
/// `candidates` and `error` members are both optional, unknown members
/// ignored, duplicates rejected.
pub open spec fn dec_response(v: JsonV) -> Option<ResponseEnvelopeV> {
    match v {
        JsonV::Obj(ms) => dec_resp_ms(ms, Option::None, Option::None),
        _ => Option::None,
    }
}

pub open spec fn opt_text_is(r: Option<String>, m: Option<Seq<char>>) -> bool {
    match (r, m) {
        (Option::None, Option::None) => true,
        (Option::Some(a), Option::Some(b)) => a@ == b,
        _ => false,
    }
}

pub open spec fn opt_part_is(r: Option<Part>, m: Option<PartV>) -> bool {
    match (r, m) {
        (Option::None, Option::None) => true,
        (Option::Some(a), Option::Some(b)) => a@ == b,
        _ => false,
    }
}

pub open spec fn opt_parts_is(r: Option<Vec<Part>>, m: Option<Seq<PartV>>) -> bool {
    match (r, m) {
        (Option::None, Option::None) => true,
        (Option::Some(a), Option::Some(b)) => parts_view(a@) == b,
        _ => false,
    }
}

pub open spec fn opt_content_is(r: Option<Content>, m: Option<ContentV>) -> bool {
    match (r, m) {
        (Option::None, Option::None) => true,
        (Option::Some(a), Option::Some(b)) => a@ == b,
        _ => false,
    }
}

pub open spec fn oo_content_is(r: Option<Option<Content>>, m: Option<Option<ContentV>>) -> bool {
    match (r, m) {
        (Option::None, Option::None) => true,
        (Option::Some(a), Option::Some(b)) => opt_content_is(a, b),
        _ => false,
    }
}

pub open spec fn opt_cand_is(r: Option<Candidate>, m: Option<CandidateV>) -> bool {
    match (r, m) {
        (Option::None, Option::None) => true,
        (Option::Some(a), Option::Some(b)) => a@ == b,
        _ => false,
    }
}

pub open spec fn opt_cands_is(r: Option<Vec<Candidate>>, m: Option<Seq<CandidateV>>) -> bool {
    match (r, m) {
        (Option::None, Option::None) => true,
        (Option::Some(a), Option::Some(b)) => cands_view(a@) == b,
        _ => false,
    }
}

pub open spec fn oo_cands_is(
    r: Option<Option<Vec<Candidate>>>,
    m: Option<Option<Seq<CandidateV>>>,
) -> bool {
    match (r, m) {
        (Option::None, Option::None) => true,
        (Option::Some(a), Option::Some(b)) => opt_cands_is(a, b),
        _ => false,
    }
}

pub open spec fn opt_err_is(r: Option<ApiError>, m: Option<ApiErrorV>) -> bool {
    match (r, m) {
        (Option::None, Option::None) => true,
        (Option::Some(a), Option::Some(b)) => a@ == b,
        _ => false,
    }
}

pub open spec fn oo_err_is(r: Option<Option<ApiError>>, m: Option<Option<ApiErrorV>>) -> bool {
    match (r, m) {
        (Option::None, Option::None) => true,
        (Option::Some(a), Option::Some(b)) => opt_err_is(a, b),
        _ => false,
    }
}

pub open spec fn opt_env_is(r: Option<ResponseEnvelope>, m: Option<ResponseEnvelopeV>) -> bool {
    match (r, m) {
        (Option::None, Option::None) => true,
        (Option::Some(a), Option::Some(b)) => a@ == b,
        _ => false,
    }
}

fn dx_u16(j: &Json) -> (r: Option<u16>)
    ensures
        r == dec_u16(j@),
{
    match j {
        Json::Num(s) => {
            match digits_capped(s.as_str(), 65535) {
                Some(n) => Some(n as u16),
                None => None,
            }
        },
        _ => None,
    }
}

fn dx_part_ms(ms: &Vec<(String, Json)>, i: usize, text: Option<String>) -> (r: Option<Part>)
    requires
        i <= ms.len(),
    ensures
        opt_part_is(r, dec_part_ms(members_view(ms@).skip(i as int), crate::config::opt_string_view(text))),
    decreases ms.len() - i,
{
    proof {
        lemma_members_view(ms@);
    }
    let ghost mv = members_view(ms@);
    if i >= ms.len() {
        proof {
            assert(mv.skip(i as int) =~= Seq::<(Seq<char>, JsonV)>::empty());
        }
        match text {
            Some(t) => Some(Part { text: t }),
            None => None,
        }
    } else {
        proof {
            assert(mv.skip(i as int)[0] == mv[i as int]);
            assert(mv.skip(i as int).drop_first() =~= mv.skip(i as int + 1));
        }
        let m = &ms[i];
        if eq_str(m.0.as_str(), "text") {
            if text.is_some() {
                None
            } else {
                match &m.1 {
                    Json::Str(t) => dx_part_ms(ms, i + 1, Some(t.clone())),
                    _ => None,
                }
            }
        } else {
            dx_part_ms(ms, i + 1, text)
        }
    }
}

fn dx_part(j: &Json) -> (r: Option<Part>)
    ensures
        opt_part_is(r, dec_part(j@)),
{
    match j {
        Json::Obj(ms) => {
            proof {
                assert(members_view(ms@).skip(0) =~= members_view(ms@));
            }
            dx_part_ms(ms, 0, None)
        },
        _ => None,
    }
}

fn dx_parts_list(items: &Vec<Json>, i: usize) -> (r: Option<Vec<Part>>)
    requires
        i <= items.len(),
    ensures
        opt_parts_is(r, dec_parts_list(items_view(items@).skip(i as int))),
    decreases items.len() - i,
{
    proof {
        lemma_items_view(items@);
    }
    let ghost iv = items_view(items@);
    if i >= items.len() {
        proof {
            assert(iv.skip(i as int) =~= Seq::<JsonV>::empty());
            assert(parts_view(Seq::<Part>::empty()) =~= Seq::<PartV>::empty());
        }
        Some(Vec::new())
    } else {
        proof {
            assert(iv.skip(i as int)[0] == iv[i as int]);
            assert(iv.skip(i as int).drop_first() =~= iv.skip(i as int + 1));
        }
        match dx_part(&items[i]) {
            Some(p) => {
                match dx_parts_list(items, i + 1) {
                    Some(mut rest) => {
                        let ghost pv = p@;
                        let ghost r0 = rest@;
                        rest.insert(0, p);
                        proof {
                            lemma_parts_view(r0);
                            lemma_parts_view(rest@);
                            assert(parts_view(rest@) =~= seq![pv] + parts_view(r0));
                        }
                        Some(rest)
                    },
                    None => None,
                }
            },
            None => None,
        }
    }
}

fn dx_content_ms(
    ms: &Vec<(String, Json)>,
    i: usize,
    parts: Option<Vec<Part>>,
) -> (r: Option<Content>)
    requires
        i <= ms.len(),
    ensures
        (match parts {
            Option::Some(ps) => opt_content_is(
                r,
                dec_content_ms(members_view(ms@).skip(i as int), Option::Some(parts_view(ps@))),
            ),
            Option::None => opt_content_is(
                r,
                dec_content_ms(members_view(ms@).skip(i as int), Option::None),
            ),
        }),
    decreases ms.len() - i,
{
    proof {
        lemma_members_view(ms@);
    }
    let ghost mv = members_view(ms@);
    if i >= ms.len() {
        proof {
            assert(mv.skip(i as int) =~= Seq::<(Seq<char>, JsonV)>::empty());
        }
        match parts {
            Some(ps) => Some(Content { parts: ps }),
            None => None,
        }
    } else {
        proof {
            assert(mv.skip(i as int)[0] == mv[i as int]);
            assert(mv.skip(i as int).drop_first() =~= mv.skip(i as int + 1));
        }
        let m = &ms[i];
        if eq_str(m.0.as_str(), "parts") {
            if parts.is_some() {
                None
            } else {
                match &m.1 {
                    Json::Arr(items) => {
                        proof {
                            assert(items_view(items@).skip(0) =~= items_view(items@));
                        }
                        match dx_parts_list(items, 0) {
                            Some(ps) => dx_content_ms(ms, i + 1, Some(ps)),
                            None => None,
                        }
                    },
                    _ => None,
                }
            }
        } else {
            dx_content_ms(ms, i + 1, parts)
        }
    }
}

fn dx_content(j: &Json) -> (r: Option<Content>)
    ensures
        opt_content_is(r, dec_content(j@)),
{
    match j {
        Json::Obj(ms) => {
            proof {
                assert(members_view(ms@).skip(0) =~= members_view(ms@));
            }
            dx_content_ms(ms, 0, None)
        },
        _ => None,
    }
}

fn dx_cand_ms(
    ms: &Vec<(String, Json)>,
    i: usize,
    content: Option<Option<Content>>,
) -> (r: Option<Candidate>)
    requires
        i <= ms.len(),
    ensures
        (match content {
            Option::Some(c) => opt_cand_is(
                r,
                dec_cand_ms(
                    members_view(ms@).skip(i as int),
                    Option::Some(
                        match c {
                            Option::Some(cc) => Option::Some(cc@),
                            Option::None => Option::None,
                        },
                    ),
                ),
            ),
            Option::None => opt_cand_is(
                r,
                dec_cand_ms(members_view(ms@).skip(i as int), Option::None),
            ),
        }),
    decreases ms.len() - i,
{
    proof {
        lemma_members_view(ms@);
    }
    let ghost mv = members_view(ms@);
    if i >= ms.len() {
        proof {
            assert(mv.skip(i as int) =~= Seq::<(Seq<char>, JsonV)>::empty());
        }
        match content {
            Some(c) => Some(Candidate { content: c }),
            None => Some(Candidate { content: None }),
        }
    } else {
        proof {
            assert(mv.skip(i as int)[0] == mv[i as int]);
            assert(mv.skip(i as int).drop_first() =~= mv.skip(i as int + 1));
        }
        let m = &ms[i];
        if eq_str(m.0.as_str(), "content") {
            if content.is_some() {
                None
            } else {
                match &m.1 {
                    Json::Null => dx_cand_ms(ms, i + 1, Some(None)),
                    _ => {
                        match dx_content(&m.1) {
                            Some(c) => dx_cand_ms(ms, i + 1, Some(Some(c))),
                            None => None,
                        }
                    },
                }
            }
        } else {
            dx_cand_ms(ms, i + 1, content)
        }
    }
}

fn dx_candidate(j: &Json) -> (r: Option<Candidate>)
    ensures
        opt_cand_is(r, dec_candidate(j@)),
{
    match j {
        Json::Obj(ms) => {
            proof {
                assert(members_view(ms@).skip(0) =~= members_view(ms@));
            }
            dx_cand_ms(ms, 0, None)
        },
        _ => None,
    }
}

fn dx_cands_list(items: &Vec<Json>, i: usize) -> (r: Option<Vec<Candidate>>)
    requires
        i <= items.len(),
    ensures
        opt_cands_is(r, dec_cands_list(items_view(items@).skip(i as int))),
    decreases items.len() - i,
{
    proof {
        lemma_items_view(items@);
    }
    let ghost iv = items_view(items@);
    if i >= items.len() {
        proof {
            assert(iv.skip(i as int) =~= Seq::<JsonV>::empty());
            assert(cands_view(Seq::<Candidate>::empty()) =~= Seq::<CandidateV>::empty());
        }
        Some(Vec::new())
    } else {
        proof {
            assert(iv.skip(i as int)[0] == iv[i as int]);
            assert(iv.skip(i as int).drop_first() =~= iv.skip(i as int + 1));
        }
        match dx_candidate(&items[i]) {
            Some(c) => {
                match dx_cands_list(items, i + 1) {
                    Some(mut rest) => {
                        let ghost cv = c@;
                        let ghost r0 = rest@;
                        rest.insert(0, c);
                        proof {
                            lemma_cands_view(r0);
                            lemma_cands_view(rest@);
                            assert(cands_view(rest@) =~= seq![cv] + cands_view(r0));
                        }
                        Some(rest)
                    },
                    None => None,
                }
            },
            None => None,
        }
    }
}

fn dx_err_ms(
    ms: &Vec<(String, Json)>,
    i: usize,
    code: Option<u16>,
    message: Option<String>,
) -> (r: Option<ApiError>)
    requires
        i <= ms.len(),
    ensures
        opt_err_is(
            r,
            dec_err_ms(
                members_view(ms@).skip(i as int),
                code,
                crate::config::opt_string_view(message),
            ),
        ),
    decreases ms.len() - i,
{
    proof {
        lemma_members_view(ms@);
    }
    let ghost mv = members_view(ms@);
    if i >= ms.len() {
        proof {
            assert(mv.skip(i as int) =~= Seq::<(Seq<char>, JsonV)>::empty());
        }
        match (code, message) {
            (Some(c), Some(m)) => Some(ApiError { code: c, message: m }),
            _ => None,
        }
    } else {
        proof {
            assert(mv.skip(i as int)[0] == mv[i as int]);
            assert(mv.skip(i as int).drop_first() =~= mv.skip(i as int + 1));
        }
        let m = &ms[i];
        if eq_str(m.0.as_str(), "code") {
            if code.is_some() {
                None
            } else {
                match dx_u16(&m.1) {
                    Some(c) => dx_err_ms(ms, i + 1, Some(c), message),
                    None => None,
                }
            }
        } else if eq_str(m.0.as_str(), "message") {
            if message.is_some() {
                None
            } else {
                match &m.1 {
                    Json::Str(t) => dx_err_ms(ms, i + 1, code, Some(t.clone())),
                    _ => None,
                }
            }
        } else {
            dx_err_ms(ms, i + 1, code, message)
        }
    }
}

fn dx_api_error(j: &Json) -> (r: Option<ApiError>)
    ensures
        opt_err_is(r, dec_api_error(j@)),
{
    match j {
        Json::Obj(ms) => {
            proof {
                assert(members_view(ms@).skip(0) =~= members_view(ms@));
            }
            dx_err_ms(ms, 0, None, None)
        },
        _ => None,
    }
}

fn dx_resp_ms(
    ms: &Vec<(String, Json)>,
    i: usize,
    candidates: Option<Option<Vec<Candidate>>>,
    error: Option<Option<ApiError>>,
) -> (r: Option<ResponseEnvelope>)
    requires
        i <= ms.len(),
    ensures
        (match (candidates, error) {
            (Option::Some(cs), Option::Some(e)) => opt_env_is(
                r,
                dec_resp_ms(members_view(ms@).skip(i as int), Option::Some(opt_cands_view(cs)), Option::Some(opt_err_view(e))),
            ),
            (Option::Some(cs), Option::None) => opt_env_is(
                r,
                dec_resp_ms(members_view(ms@).skip(i as int), Option::Some(opt_cands_view(cs)), Option::None),
            ),
            (Option::None, Option::Some(e)) => opt_env_is(
                r,
                dec_resp_ms(members_view(ms@).skip(i as int), Option::None, Option::Some(opt_err_view(e))),
            ),
            (Option::None, Option::None) => opt_env_is(
                r,
                dec_resp_ms(members_view(ms@).skip(i as int), Option::None, Option::None),
            ),
        }),
    decreases ms.len() - i,
{
    proof {
        lemma_members_view(ms@);
    }
    let ghost mv = members_view(ms@);
    if i >= ms.len() {
        proof {
            assert(mv.skip(i as int) =~= Seq::<(Seq<char>, JsonV)>::empty());
        }
        let cval = match candidates {
            Some(c) => c,
            None => None,
        };
        let eval = match error {
            Some(e) => e,
            None => None,
        };
        Some(ResponseEnvelope { candidates: cval, error: eval })
    } else {
        proof {
            assert(mv.skip(i as int)[0] == mv[i as int]);
            assert(mv.skip(i as int).drop_first() =~= mv.skip(i as int + 1));
        }
        let m = &ms[i];
        if eq_str(m.0.as_str(), "candidates") {
            if candidates.is_some() {
                None
            } else {
                match &m.1 {
                    Json::Null => dx_resp_ms(ms, i + 1, Some(None), error),
                    Json::Arr(items) => {
                        proof {
                            assert(items_view(items@).skip(0) =~= items_view(items@));
                        }
                        match dx_cands_list(items, 0) {
                            Some(cs) => dx_resp_ms(ms, i + 1, Some(Some(cs)), error),
                            None => None,
                        }
                    },
                    _ => None,
                }
            }
        } else if eq_str(m.0.as_str(), "error") {
            if error.is_some() {
                None
            } else {
                match &m.1 {
                    Json::Null => dx_resp_ms(ms, i + 1, candidates, Some(None)),
                    _ => {
                        match dx_api_error(&m.1) {
                            Some(e) => dx_resp_ms(ms, i + 1, candidates, Some(Some(e))),
                            None => None,
                        }
                    },
                }
            }
        } else {
            dx_resp_ms(ms, i + 1, candidates, error)
        }
    }
}

pub open spec fn opt_cands_view(cs: Option<Vec<Candidate>>) -> Option<Seq<CandidateV>> {
    match cs {
        Option::Some(v) => Option::Some(cands_view(v@)),
        Option::None => Option::None,
    }
}

pub open spec fn opt_err_view(e: Option<ApiError>) -> Option<ApiErrorV> {
    match e {
        Option::Some(v) => Option::Some(v@),
        Option::None => Option::None,
    }
}

/// Reads the response envelope from a parsed JSON document, exactly as
/// `dec_response` describes.
pub fn decode_response(j: &Json) -> (r: Option<ResponseEnvelope>)
    ensures
        opt_env_is(r, dec_response(j@)),
{
    match j {
        Json::Obj(ms) => {
            proof {
                assert(members_view(ms@).skip(0) =~= members_view(ms@));
            }
            dx_resp_ms(ms, 0, None, None)
        },
        _ => None,
    }
}

/// Ghost model of an interpretation failure.
#[verifier::ext_equal]
pub enum ResponseErrorV {
    Deserialization { body: Seq<char> },
    Api { code: u16, message: Seq<char> },
    UnexpectedStatus { status: u16, envelope: ResponseEnvelopeV },
    EmptyResponse { envelope: ResponseEnvelopeV },
}

/// A failure of one send: the response body did not parse, the provider
/// reported a structured error, the status was unexpected with no error
/// body, or a successful response held no usable text.
#[derive(Debug)]
pub enum ResponseError {
    Deserialization { body: String },
    Api { code: u16, message: String },
    UnexpectedStatus { status: u16, envelope: ResponseEnvelope },
    EmptyResponse { envelope: ResponseEnvelope },
}

impl View for ResponseError {
    type V = ResponseErrorV;

    open spec fn view(&self) -> ResponseErrorV {
        match self {
            ResponseError::Deserialization { body } => ResponseErrorV::Deserialization {
                body: body@,
            },
            ResponseError::Api { code, message } => ResponseErrorV::Api {
                code: *code,
                message: message@,
            },
            ResponseError::UnexpectedStatus { status, envelope } => {
                ResponseErrorV::UnexpectedStatus { status: *status, envelope: envelope@ }
            },
            ResponseError::EmptyResponse { envelope } => ResponseErrorV::EmptyResponse {
                envelope: envelope@,
            },
        }
    }
}

/// Whether an HTTP status code indicates success.
pub open spec fn is_success(status: u16) -> bool {
    200 <= status && status < 300
}

/// The outcome for a decoded envelope: on failure status, the provider's
/// error verbatim if present, else the unexpected status with the envelope;
/// on success, the first part of the first candidate, else an
/// empty-response failure carrying the envelope.
pub open spec fn interpret_env(status: u16, env: ResponseEnvelopeV) -> Result<
    Seq<char>,
    ResponseErrorV,
> {
    if !is_success(status) {
        match env.error {
            Option::Some(e) => Result::Err(
                ResponseErrorV::Api { code: e.code, message: e.message },
            ),
            Option::None => Result::Err(
                ResponseErrorV::UnexpectedStatus { status, envelope: env },
            ),
        }
    } else {
        match env.candidates {
            Option::Some(cs) => if cs.len() >= 1 {
                match cs[0].content {
                    Option::Some(c) => if c.parts.len() >= 1 {
                        Result::Ok(c.parts[0].text)
                    } else {
                        Result::Err(ResponseErrorV::EmptyResponse { envelope: env })
                    },
                    Option::None => Result::Err(
                        ResponseErrorV::EmptyResponse { envelope: env },
                    ),
                }
            } else {
                Result::Err(ResponseErrorV::EmptyResponse { envelope: env })
            },
            Option::None => Result::Err(ResponseErrorV::EmptyResponse { envelope: env }),
        }
    }
}

/// The outcome for a raw response: bodies that do not parse as the
/// response schema fail as deserialization errors carrying the body.
pub open spec fn interpret_spec(status: u16, body: Seq<char>) -> Result<Seq<char>, ResponseErrorV> {
    match spec_json(body) {
        Option::None => Result::Err(ResponseErrorV::Deserialization { body }),
        Option::Some(v) => match dec_response(v) {
            Option::None => Result::Err(ResponseErrorV::Deserialization { body }),
            Option::Some(env) => interpret_env(status, env),
        },
    }
}

pub open spec fn res_view(r: Result<String, ResponseError>) -> Result<Seq<char>, ResponseErrorV> {
    match r {
        Result::Ok(s) => Result::Ok(s@),
        Result::Err(e) => Result::Err(e@),
    }
}

/// Interprets one raw response, exactly as `interpret_spec` describes.
pub fn interpret(status: u16, body: &str) -> (r: Result<String, ResponseError>)
    ensures
        res_view(r) == interpret_spec(status, body@),
{
    match crate::parse::parse(body) {
        None => Err(ResponseError::Deserialization { body: String::from_str(body) }),
        Some(j) => {
            match decode_response(&j) {
                None => Err(ResponseError::Deserialization { body: String::from_str(body) }),
                Some(env) => {
                    if !(200 <= status && status < 300) {
                        let api: Option<(u16, String)> = match &env.error {
                            Some(e) => Some((e.code, e.message.clone())),
                            None => None,
                        };
                        match api {
                            Some(ce) => Err(ResponseError::Api { code: ce.0, message: ce.1 }),
                            None => Err(ResponseError::UnexpectedStatus { status, envelope: env }),
                        }
                    } else {
                        let mut extracted: Option<String> = None;
                        match &env.candidates {
                            Some(cands) => {
                                if cands.len() >= 1 {
                                    proof {
                                        lemma_cands_view(cands@);
                                    }
                                    match &cands[0].content {
                                        Some(c) => {
                                            if c.parts.len() >= 1 {
                                                proof {
                                                    lemma_parts_view(c.parts@);
                                                }
                                                extracted = Some(c.parts[0].text.clone());
                                            }
                                        },
                                        None => {},
                                    }
                                }
                            },
                            None => {},
                        }
                        match extracted {
                            Some(t) => Ok(t),
                            None => Err(ResponseError::EmptyResponse { envelope: env }),
                        }
                    }
                },
            }
        },
    }
}

/// Law: on a successful status, for every envelope with at least one
/// candidate whose content holds at least one part, interpretation returns
/// exactly the first part of the first candidate, whatever else the
/// envelope holds.
pub proof fn lemma_first_candidate_wins(status: u16, env: ResponseEnvelopeV)
    requires
        is_success(status),
        env.candidates is Some,
        env.candidates->0.len() >= 1,
        env.candidates->0[0].content is Some,
        env.candidates->0[0].content->0.parts.len() >= 1,
    ensures
        interpret_env(status, env) == Result::<Seq<char>, ResponseErrorV>::Ok(
            env.candidates->0[0].content->0.parts[0].text,
        ),
{
}

/// Renders the failure for the user.
pub open spec fn spec_message(e: ResponseErrorV) -> Seq<char> {
    match e {
        ResponseErrorV::Deserialization { body } => "Failed to deserialize Gemini API response - Body: "@
            + body,
        ResponseErrorV::Api { code, message } => "LLM API error "@ + crate::num::dec_str(
            code as nat,
        ) + ": "@ + message,
        ResponseErrorV::UnexpectedStatus { status, envelope } => "LLM request failed with status "@
            + crate::num::dec_str(status as nat),
        ResponseErrorV::EmptyResponse { envelope } => "LLM response successful but no text content found."@,
    }
}

impl ResponseError {
    /// The failure rendered as text, as `spec_message` describes.
    pub fn message(&self) -> (r: String)
        ensures
            r@ == spec_message(self@),
    {
        match self {
            ResponseError::Deserialization { body } => {
                let mut s = String::from_str("Failed to deserialize Gemini API response - Body: ");
                s.append(body.as_str());
                s
            },
            ResponseError::Api { code, message } => {
                let mut s = String::from_str("LLM API error ");
                let c = u32_to_dec(*code as u32);
                s.append(c.as_str());
                s.append(": ");
                s.append(message.as_str());
                s
            },
            ResponseError::UnexpectedStatus { status, envelope } => {
                let mut s = String::from_str("LLM request failed with status ");
                let c = u32_to_dec(*status as u32);
                s.append(c.as_str());
                s
            },
            ResponseError::EmptyResponse { envelope } => {
                String::from_str("LLM response successful but no text content found.")
            },
        }
    }
}

} // verus!
