//! Building the provider wire request: mapping the configured generation
//! parameters and the prompt into the request envelope, and encoding the
//! envelope as a JSON document.

use vstd::prelude::*;
use crate::config::GeminiConfig;
use crate::config::GeminiConfigV;
use crate::json::Json;
use crate::json::JsonV;
use crate::json::json_wf;
use crate::num::Decimal;
use crate::num::dec_str;
use crate::num::is_number_token;
use crate::num::u32_to_dec;

verus! {

broadcast use {vstd::seq::group_seq_axioms, vstd::seq_lib::group_seq_lib_default};

/// Ghost model of one text part.
#[verifier::ext_equal]
pub struct PartV {
    pub text: Seq<char>,
}

/// One text part of a content block.
#[derive(Debug)]
pub struct Part {
    pub text: String,
}

impl View for Part {
    type V = PartV;

    open spec fn view(&self) -> PartV {
        PartV { text: self.text@ }
    }
}

/// Ghost model of one content block.
#[verifier::ext_equal]
pub struct ContentV {
    pub parts: Seq<PartV>,
}

/// One turn of conversation: a list of text parts.
#[derive(Debug)]
pub struct Content {
    pub parts: Vec<Part>,
}

/// The views of a sequence of parts.
pub open spec fn parts_view(v: Seq<Part>) -> Seq<PartV>
    decreases v.len(),
{
    if v.len() == 0 {
        Seq::empty()
    } else {
        parts_view(v.drop_last()).push(v.last()@)
    }
}

pub proof fn lemma_parts_view(v: Seq<Part>)
    ensures
        parts_view(v).len() == v.len(),
        forall|k: int| 0 <= k && k < v.len() ==> #[trigger] parts_view(v)[k] == v[k]@,
    decreases v.len(),
{
    if v.len() > 0 {
        lemma_parts_view(v.drop_last());
        assert forall|k: int| 0 <= k && k < v.len() implies #[trigger] parts_view(v)[k]
            == v[k]@ by {
            if k < v.len() - 1 {
                assert(parts_view(v)[k] == parts_view(v.drop_last())[k]);
                assert(v.drop_last()[k] == v[k]);
            } else {
                assert(parts_view(v)[k] == v.last()@);
            }
        }
    }
}

impl View for Content {
    type V = ContentV;

    open spec fn view(&self) -> ContentV {
        ContentV { parts: parts_view(self.parts@) }
    }
}

/// The views of a sequence of content blocks.
pub open spec fn contents_view(v: Seq<Content>) -> Seq<ContentV>
    decreases v.len(),
{
    if v.len() == 0 {
        Seq::empty()
    } else {
        contents_view(v.drop_last()).push(v.last()@)
    }
}

pub proof fn lemma_contents_view(v: Seq<Content>)
    ensures
        contents_view(v).len() == v.len(),
        forall|k: int| 0 <= k && k < v.len() ==> #[trigger] contents_view(v)[k] == v[k]@,
    decreases v.len(),
{
    if v.len() > 0 {
        lemma_contents_view(v.drop_last());
        assert forall|k: int| 0 <= k && k < v.len() implies #[trigger] contents_view(v)[k]
            == v[k]@ by {
            if k < v.len() - 1 {
                assert(contents_view(v)[k] == contents_view(v.drop_last())[k]);
                assert(v.drop_last()[k] == v[k]);
            } else {
                assert(contents_view(v)[k] == v.last()@);
            }
        }
    }
}

/// Ghost model of the thinking control on the wire.
#[verifier::ext_equal]
pub struct ApiThinkingConfigV {
    pub thinking_budget: Option<u32>,
    pub thinking_level: Option<Seq<char>>,
}

/// The thinking control on the wire: either a numeric budget or a named
/// level, never both.
#[derive(Debug)]
pub struct ApiThinkingConfig {
    pub thinking_budget: Option<u32>,
    pub thinking_level: Option<String>,
}

impl View for ApiThinkingConfig {
    type V = ApiThinkingConfigV;

    open spec fn view(&self) -> ApiThinkingConfigV {
        ApiThinkingConfigV {
            thinking_budget: self.thinking_budget,
            thinking_level: crate::config::opt_string_view(self.thinking_level),
        }
    }
}

/// Ghost model of the generation parameters on the wire.
#[verifier::ext_equal]
pub struct ApiGenerationConfigV {
    pub temperature: Option<Seq<char>>,
    pub top_p: Option<Seq<char>>,
    pub top_k: Option<u32>,
    pub max_output_tokens: Option<u32>,
    pub thinking_config: Option<ApiThinkingConfigV>,
}

/// The generation parameters as they go on the wire, each field omitted
/// when absent.
#[derive(Debug)]
pub struct ApiGenerationConfig {
    pub temperature: Option<Decimal>,
    pub top_p: Option<Decimal>,
    pub top_k: Option<u32>,
    pub max_output_tokens: Option<u32>,
    pub thinking_config: Option<ApiThinkingConfig>,
}

impl View for ApiGenerationConfig {
    type V = ApiGenerationConfigV;

    open spec fn view(&self) -> ApiGenerationConfigV {
        ApiGenerationConfigV {
            temperature: crate::config::opt_dec_view(self.temperature),
            top_p: crate::config::opt_dec_view(self.top_p),
            top_k: self.top_k,
            max_output_tokens: self.max_output_tokens,
            thinking_config: match self.thinking_config {
                Option::Some(t) => Option::Some(t@),
                Option::None => Option::None,
            },
        }
    }
}

/// Ghost model of the request envelope.
#[verifier::ext_equal]
pub struct RequestEnvelopeV {
    pub contents: Seq<ContentV>,
    pub generation_config: Option<ApiGenerationConfigV>,
}

/// The request envelope: one user turn plus optional generation parameters.
#[derive(Debug)]
pub struct RequestEnvelope {
    pub contents: Vec<Content>,
    pub generation_config: Option<ApiGenerationConfig>,
}

impl View for RequestEnvelope {
    type V = RequestEnvelopeV;

    open spec fn view(&self) -> RequestEnvelopeV {
        RequestEnvelopeV {
            contents: contents_view(self.contents@),
            generation_config: match self.generation_config {
                Option::Some(g) => Option::Some(g@),
                Option::None => Option::None,
            },
        }
    }
}

/// The thinking control derived from the configuration: a named level takes
/// precedence over a numeric budget.
pub open spec fn thinking_of(g: GeminiConfigV) -> Option<ApiThinkingConfigV> {
    match g.thinking_level {
        Option::Some(lvl) => Option::Some(
            ApiThinkingConfigV { thinking_budget: Option::None, thinking_level: Option::Some(lvl) },
        ),
        Option::None => match g.thinking_budget {
            Option::Some(b) => Option::Some(
                ApiThinkingConfigV {
                    thinking_budget: Option::Some(b),
                    thinking_level: Option::None,
                },
            ),
            Option::None => Option::None,
        },
    }
}

/// The wire generation parameters derived from the configuration.
pub open spec fn gen_config_of(g: GeminiConfigV) -> ApiGenerationConfigV {
    ApiGenerationConfigV {
        temperature: g.temperature,
        top_p: g.top_p,
        top_k: g.top_k,
        max_output_tokens: g.max_output_tokens,
        thinking_config: thinking_of(g),
    }
}

/// Whether every optional generation parameter is unset.
pub open spec fn params_unset(g: GeminiConfigV) -> bool {
    g.temperature is None && g.top_p is None && g.top_k is None && g.max_output_tokens is None
        && g.thinking_budget is None && g.thinking_level is None
}

/// The request envelope for one prompt: a single content block holding one
/// text part, and the generation parameters, omitted entirely when every
/// parameter is unset.
pub open spec fn build_spec(g: GeminiConfigV, p: Seq<char>) -> RequestEnvelopeV {
    RequestEnvelopeV {
        contents: seq![ContentV { parts: seq![PartV { text: p }] }],
        generation_config: if params_unset(g) {
            Option::None
        } else {
            Option::Some(gen_config_of(g))
        },
    }
}

impl ApiGenerationConfig {
    /// The wire generation parameters for the configuration `gc`: one-to-one
    /// fields, with the named thinking level taking precedence over the
    /// numeric budget.
    pub fn from(gc: &GeminiConfig) -> (r: ApiGenerationConfig)
        ensures
            r@ == gen_config_of(gc@),
    {
        let thinking_config = match &gc.thinking_level {
            Some(level) => Some(
                ApiThinkingConfig {
                    thinking_budget: None,
                    thinking_level: Some(level.clone()),
                },
            ),
            None => {
                match gc.thinking_budget {
                    Some(tb) => Some(
                        ApiThinkingConfig {
                            thinking_budget: Some(tb),
                            thinking_level: None,
                        },
                    ),
                    None => None,
                }
            },
        };
        ApiGenerationConfig {
            temperature: match &gc.temperature {
                Some(d) => Some(d.duplicate()),
                None => None,
            },
            top_p: match &gc.top_p {
                Some(d) => Some(d.duplicate()),
                None => None,
            },
            top_k: gc.top_k,
            max_output_tokens: gc.max_output_tokens,
            thinking_config,
        }
    }
}

/// Builds the request envelope for one prompt from the provider
/// configuration, as `build_spec` describes.
pub fn build_request(gc: &GeminiConfig, prompt: &str) -> (r: RequestEnvelope)
    ensures
        r@ == build_spec(gc@, prompt@),
{
    let mut parts: Vec<Part> = Vec::new();
    parts.push(Part { text: String::from_str(prompt) });
    let mut contents: Vec<Content> = Vec::new();
    contents.push(Content { parts });
    let all_unset = gc.temperature.is_none() && gc.top_p.is_none() && gc.top_k.is_none()
        && gc.max_output_tokens.is_none() && gc.thinking_budget.is_none()
        && gc.thinking_level.is_none();
    let generation_config = if all_unset {
        None
    } else {
        Some(ApiGenerationConfig::from(gc))
    };
    let r = RequestEnvelope { contents, generation_config };
    proof {
        let cs = r.contents@;
        lemma_contents_view(cs);
        lemma_parts_view(cs[0].parts@);
        assert(contents_view(cs) =~~= seq![ContentV { parts: seq![PartV { text: prompt@ }] }]);
        assert(r@ =~~= build_spec(gc@, prompt@));
    }
    r
}

/// The wire JSON for one text part.
pub open spec fn enc_part(p: PartV) -> JsonV {
    JsonV::Obj(seq![("text"@, JsonV::Str(p.text))])
}

pub open spec fn enc_parts(ps: Seq<PartV>) -> Seq<JsonV>
    decreases ps.len(),
{
    if ps.len() == 0 {
        Seq::empty()
    } else {
        enc_parts(ps.drop_last()).push(enc_part(ps.last()))
    }
}

/// The wire JSON for one content block.
pub open spec fn enc_content(c: ContentV) -> JsonV {
    JsonV::Obj(seq![("parts"@, JsonV::Arr(enc_parts(c.parts)))])
}

pub open spec fn enc_contents(cs: Seq<ContentV>) -> Seq<JsonV>
    decreases cs.len(),
{
    if cs.len() == 0 {
        Seq::empty()
    } else {
        enc_contents(cs.drop_last()).push(enc_content(cs.last()))
    }
}

pub open spec fn opt_tok_member(key: Seq<char>, o: Option<Seq<char>>) -> Seq<(Seq<char>, JsonV)> {
    match o {
        Option::Some(t) => seq![(key, JsonV::Num(t))],
        Option::None => Seq::empty(),
    }
}

pub open spec fn opt_u32_member(key: Seq<char>, o: Option<u32>) -> Seq<(Seq<char>, JsonV)> {
    match o {
        Option::Some(nv) => seq![(key, JsonV::Num(dec_str(nv as nat)))],
        Option::None => Seq::empty(),
    }
}

pub open spec fn opt_str_member(key: Seq<char>, o: Option<Seq<char>>) -> Seq<(Seq<char>, JsonV)> {
    match o {
        Option::Some(t) => seq![(key, JsonV::Str(t))],
        Option::None => Seq::empty(),
    }
}

/// The wire JSON for the thinking control.
pub open spec fn enc_thinking(t: ApiThinkingConfigV) -> JsonV {
    JsonV::Obj(
        opt_u32_member("thinkingBudget"@, t.thinking_budget) + opt_str_member(
            "thinkingLevel"@,
            t.thinking_level,
        ),
    )
}

/// The wire JSON for the generation parameters, absent fields omitted.
pub open spec fn enc_gen(g: ApiGenerationConfigV) -> JsonV {
    JsonV::Obj(
        opt_tok_member("temperature"@, g.temperature) + opt_tok_member("topP"@, g.top_p)
            + opt_u32_member("topK"@, g.top_k) + opt_u32_member(
            "maxOutputTokens"@,
            g.max_output_tokens,
        ) + (match g.thinking_config {
            Option::Some(t) => seq![("thinkingConfig"@, enc_thinking(t))],
            Option::None => Seq::empty(),
        }),
    )
}

/// The wire JSON for the whole request envelope.
pub open spec fn enc_request(r: RequestEnvelopeV) -> JsonV {
    JsonV::Obj(
        seq![("contents"@, JsonV::Arr(enc_contents(r.contents)))] + (match r.generation_config {
            Option::Some(g) => seq![("generationConfig"@, enc_gen(g))],
            Option::None => Seq::empty(),
        }),
    )
}

fn encode_part(p: &Part) -> (j: Json)
    ensures
        j@ == enc_part(p@),
        json_wf(j@),
{
    let mut ms: Vec<(String, Json)> = Vec::new();
    let ghost m0 = ms@;
    ms.push((String::from_str("text"), Json::Str(p.text.clone())));
    proof {
        let x = ms@.last();
        crate::json::lemma_members_view_push(m0, x);
        assert(ms@ == m0.push(x));
        assert(crate::json::members_view(m0) =~= Seq::empty());
        assert(crate::json::members_view(ms@) =~= seq![("text"@, JsonV::Str(p.text@))]);
    }
    let ghost msv = crate::json::members_view(ms@);
    let j = Json::Obj(ms);
    proof {
        assert(j@ == JsonV::Obj(msv));
        assert(j@ =~~= enc_part(p@));
        assert forall|k: int| 0 <= k && k < msv.len() implies json_wf(#[trigger] msv[k].1) by {
            assert(msv[k].1 == JsonV::Str(p.text@));
        }
        crate::json::lemma_wf_members_char(msv);
        assert(json_wf(j@));
    }
    j
}

fn encode_content(c: &Content) -> (j: Json)
    ensures
        j@ == enc_content(c@),
        json_wf(j@),
{
    let mut items: Vec<Json> = Vec::new();
    let mut i: usize = 0;
    let ghost pv = parts_view(c.parts@);
    proof {
        lemma_parts_view(c.parts@);
        assert(pv.subrange(0, 0) =~= Seq::empty());
        assert(crate::json::items_view(items@) =~= Seq::empty());
        assert(enc_parts(pv.subrange(0, 0)) == Seq::<JsonV>::empty());
    }
    while i < c.parts.len()
        invariant
            i <= c.parts.len(),
            pv == parts_view(c.parts@),
            pv.len() == c.parts.len(),
            forall|k: int| 0 <= k && k < c.parts.len() ==> #[trigger] pv[k] == c.parts@[k]@,
            crate::json::items_view(items@) == enc_parts(pv.subrange(0, i as int)),
            forall|k: int| 0 <= k && k < items@.len() ==> json_wf(
                #[trigger] crate::json::items_view(items@)[k],
            ),
        decreases c.parts.len() - i,
    {
        let ghost items0 = items@;
        let e = encode_part(&c.parts[i]);
        let ghost ev = e@;
        items.push(e);
        proof {
            crate::json::lemma_items_view(items0);
            crate::json::lemma_items_view(items@);
            crate::json::lemma_items_view_push(items0, items@.last());
            assert(items@ == items0.push(items@.last()));
            assert(crate::json::items_view(items@) == crate::json::items_view(items0).push(ev));
            assert(pv.subrange(0, i as int + 1).drop_last() =~= pv.subrange(0, i as int));
            assert(pv.subrange(0, i as int + 1).last() == pv[i as int]);
            assert(enc_parts(pv.subrange(0, i as int + 1)) == enc_parts(
                pv.subrange(0, i as int),
            ).push(enc_part(pv[i as int])));
            assert(crate::json::items_view(items@) =~= enc_parts(pv.subrange(0, i as int + 1)));
            assert forall|k: int| 0 <= k && k < items@.len() implies json_wf(
                #[trigger] crate::json::items_view(items@)[k],
            ) by {
                if k < items0.len() {
                    assert(crate::json::items_view(items@)[k] == crate::json::items_view(
                        items0,
                    )[k]);
                } else {
                    assert(crate::json::items_view(items@)[k] == ev);
                }
            }
        }
        i = i + 1;
    }
    proof {
        assert(pv.subrange(0, i as int) =~= pv);
        crate::json::lemma_items_view(items@);
    }
    let ghost iv = crate::json::items_view(items@);
    let arr = Json::Arr(items);
    proof {
        crate::json::lemma_wf_list_char(iv);
        assert(arr@ == JsonV::Arr(iv));
        assert(json_wf(arr@));
    }
    let mut ms: Vec<(String, Json)> = Vec::new();
    let ghost m0 = ms@;
    ms.push((String::from_str("parts"), arr));
    proof {
        let x = ms@.last();
        crate::json::lemma_members_view_push(m0, x);
        assert(ms@ == m0.push(x));
        assert(crate::json::members_view(m0) =~= Seq::empty());
        assert(crate::json::members_view(ms@) =~= seq![("parts"@, JsonV::Arr(enc_parts(pv)))]);
    }
    let ghost msv = crate::json::members_view(ms@);
    let j = Json::Obj(ms);
    proof {
        assert(j@ == JsonV::Obj(msv));
        assert(j@ =~~= enc_content(c@));
        assert forall|k: int| 0 <= k && k < msv.len() implies json_wf(#[trigger] msv[k].1) by {
            assert(msv[k].1 == JsonV::Arr(enc_parts(pv)));
            assert(json_wf(JsonV::Arr(iv)));
        }
        crate::json::lemma_wf_members_char(msv);
        assert(json_wf(j@));
    }
    j
}

fn encode_thinking(t: &ApiThinkingConfig) -> (j: Json)
    ensures
        j@ == enc_thinking(t@),
        json_wf(j@),
{
    let mut ms: Vec<(String, Json)> = Vec::new();
    let ghost m0 = ms@;
    match t.thinking_budget {
        Some(b) => {
            ms.push((String::from_str("thinkingBudget"), Json::Num(u32_to_dec(b))));
            proof {
                crate::num::lemma_dec_str_token(b as nat);
                crate::json::lemma_members_view_push(m0, ms@.last());
                assert(ms@ == m0.push(ms@.last()));
            }
        },
        None => {},
    }
    proof {
        assert(crate::json::members_view(m0) =~= Seq::empty());
        assert(crate::json::members_view(ms@) =~= opt_u32_member(
            "thinkingBudget"@,
            t.thinking_budget,
        ));
    }
    let ghost ms1 = crate::json::members_view(ms@);
    let ghost m1 = ms@;
    match &t.thinking_level {
        Some(level) => {
            ms.push((String::from_str("thinkingLevel"), Json::Str(level.clone())));
            proof {
                crate::json::lemma_members_view_push(m1, ms@.last());
                assert(ms@ == m1.push(ms@.last()));
            }
        },
        None => {},
    }
    proof {
        assert(crate::json::members_view(ms@) =~= ms1 + opt_str_member(
            "thinkingLevel"@,
            crate::config::opt_string_view(t.thinking_level),
        ));
    }
    let ghost msv = crate::json::members_view(ms@);
    let j = Json::Obj(ms);
    proof {
        assert(j@ == JsonV::Obj(msv));
        assert(j@ =~~= enc_thinking(t@));
        assert forall|k: int| 0 <= k && k < msv.len() implies json_wf(#[trigger] msv[k].1) by {
            if t@.thinking_budget is Some && k == 0 {
                assert(msv[k].1 == JsonV::Num(dec_str(t@.thinking_budget->0 as nat)));
                crate::num::lemma_dec_str_token(t@.thinking_budget->0 as nat);
            } else {
                assert(msv[k].1 == JsonV::Str(t@.thinking_level->0));
            }
        }
        crate::json::lemma_wf_members_char(msv);
        assert(json_wf(j@));
    }
    j
}

fn encode_gen(g: &ApiGenerationConfig) -> (j: Json)
    ensures
        j@ == enc_gen(g@),
        json_wf(j@),
{
    let mut ms: Vec<(String, Json)> = Vec::new();
    let ghost m0 = ms@;
    match &g.temperature {
        Some(d) => {
            proof {
                use_type_invariant(d);
                assert(is_number_token(d@));
                assert(crate::config::opt_dec_view(g.temperature) == Option::Some(d@));
            }
            ms.push((String::from_str("temperature"), Json::Num(String::from_str(d.text()))));
            proof {
                crate::json::lemma_members_view_push(m0, ms@.last());
                assert(ms@ == m0.push(ms@.last()));
            }
        },
        None => {},
    }
    proof {
        assert(crate::json::members_view(m0) =~= Seq::empty());
        assert(crate::json::members_view(ms@) =~= opt_tok_member(
            "temperature"@,
            crate::config::opt_dec_view(g.temperature),
        ));
        assert forall|k: int| 0 <= k && k < ms@.len() implies json_wf(
            #[trigger] crate::json::members_view(ms@)[k].1,
        ) by {}
    }
    let ghost ms1 = crate::json::members_view(ms@);
    let ghost m1 = ms@;
    match &g.top_p {
        Some(d) => {
            proof {
                use_type_invariant(d);
                assert(is_number_token(d@));
                assert(crate::config::opt_dec_view(g.top_p) == Option::Some(d@));
            }
            ms.push((String::from_str("topP"), Json::Num(String::from_str(d.text()))));
            proof {
                crate::json::lemma_members_view_push(m1, ms@.last());
                assert(ms@ == m1.push(ms@.last()));
            }
        },
        None => {},
    }
    proof {
        assert(crate::json::members_view(ms@) =~= ms1 + opt_tok_member(
            "topP"@,
            crate::config::opt_dec_view(g.top_p),
        ));
        assert forall|k: int| 0 <= k && k < ms@.len() implies json_wf(
            #[trigger] crate::json::members_view(ms@)[k].1,
        ) by {}
    }
    let ghost ms2 = crate::json::members_view(ms@);
    let ghost m2 = ms@;
    match g.top_k {
        Some(kk) => {
            ms.push((String::from_str("topK"), Json::Num(u32_to_dec(kk))));
            proof {
                crate::num::lemma_dec_str_token(kk as nat);
                crate::json::lemma_members_view_push(m2, ms@.last());
                assert(ms@ == m2.push(ms@.last()));
            }
        },
        None => {},
    }
    proof {
        assert(crate::json::members_view(ms@) =~= ms2 + opt_u32_member("topK"@, g.top_k));
        assert forall|k: int| 0 <= k && k < ms@.len() implies json_wf(
            #[trigger] crate::json::members_view(ms@)[k].1,
        ) by {}
    }
    let ghost ms3 = crate::json::members_view(ms@);
    let ghost m3 = ms@;
    match g.max_output_tokens {
        Some(kk) => {
            ms.push((String::from_str("maxOutputTokens"), Json::Num(u32_to_dec(kk))));
            proof {
                crate::num::lemma_dec_str_token(kk as nat);
                crate::json::lemma_members_view_push(m3, ms@.last());
                assert(ms@ == m3.push(ms@.last()));
            }
        },
        None => {},
    }
    proof {
        assert(crate::json::members_view(ms@) =~= ms3 + opt_u32_member(
            "maxOutputTokens"@,
            g.max_output_tokens,
        ));
        assert forall|k: int| 0 <= k && k < ms@.len() implies json_wf(
            #[trigger] crate::json::members_view(ms@)[k].1,
        ) by {}
    }
    let ghost ms4 = crate::json::members_view(ms@);
    let ghost m4 = ms@;
    match &g.thinking_config {
        Some(t) => {
            ms.push((String::from_str("thinkingConfig"), encode_thinking(t)));
            proof {
                crate::json::lemma_members_view_push(m4, ms@.last());
                assert(ms@ == m4.push(ms@.last()));
            }
        },
        None => {},
    }
    proof {
        assert(crate::json::members_view(ms@) =~= ms4 + (match g@.thinking_config {
            Option::Some(t) => seq![("thinkingConfig"@, enc_thinking(t))],
            Option::None => Seq::empty(),
        }));
        assert forall|k: int| 0 <= k && k < ms@.len() implies json_wf(
            #[trigger] crate::json::members_view(ms@)[k].1,
        ) by {}
    }
    let ghost msv = crate::json::members_view(ms@);
    let j = Json::Obj(ms);
    proof {
        assert(j@ == JsonV::Obj(msv));
        assert(j@ =~~= enc_gen(g@));
        crate::json::lemma_wf_members_char(msv);
        assert(json_wf(j@));
    }
    j
}

/// Encodes the request envelope as its wire JSON, which is well-formed.
pub fn encode_request(r: &RequestEnvelope) -> (j: Json)
    ensures
        j@ == enc_request(r@),
        json_wf(j@),
{
    let mut items: Vec<Json> = Vec::new();
    let mut i: usize = 0;
    let ghost cv = contents_view(r.contents@);
    proof {
        lemma_contents_view(r.contents@);
        assert(cv.subrange(0, 0) =~= Seq::empty());
        assert(crate::json::items_view(items@) =~= Seq::empty());
        assert(enc_contents(cv.subrange(0, 0)) == Seq::<JsonV>::empty());
    }
    while i < r.contents.len()
        invariant
            i <= r.contents.len(),
            cv == contents_view(r.contents@),
            cv.len() == r.contents.len(),
            forall|k: int| 0 <= k && k < r.contents.len() ==> #[trigger] cv[k] == r.contents@[k]@,
            crate::json::items_view(items@) == enc_contents(cv.subrange(0, i as int)),
            forall|k: int| 0 <= k && k < items@.len() ==> json_wf(
                #[trigger] crate::json::items_view(items@)[k],
            ),
        decreases r.contents.len() - i,
    {
        let ghost items0 = items@;
        let e = encode_content(&r.contents[i]);
        let ghost ev = e@;
        items.push(e);
        proof {
            crate::json::lemma_items_view(items0);
            crate::json::lemma_items_view(items@);
            crate::json::lemma_items_view_push(items0, items@.last());
            assert(items@ == items0.push(items@.last()));
            assert(crate::json::items_view(items@) == crate::json::items_view(items0).push(ev));
            assert(cv.subrange(0, i as int + 1).drop_last() =~= cv.subrange(0, i as int));
            assert(cv.subrange(0, i as int + 1).last() == cv[i as int]);
            assert(enc_contents(cv.subrange(0, i as int + 1)) == enc_contents(
                cv.subrange(0, i as int),
            ).push(enc_content(cv[i as int])));
            assert(crate::json::items_view(items@) =~= enc_contents(cv.subrange(0, i as int + 1)));
            assert forall|k: int| 0 <= k && k < items@.len() implies json_wf(
                #[trigger] crate::json::items_view(items@)[k],
            ) by {
                if k < items0.len() {
                    assert(crate::json::items_view(items@)[k] == crate::json::items_view(
                        items0,
                    )[k]);
                } else {
                    assert(crate::json::items_view(items@)[k] == ev);
                }
            }
        }
        i = i + 1;
    }
    proof {
        assert(cv.subrange(0, i as int) =~= cv);
        crate::json::lemma_items_view(items@);
    }
    let ghost iv = crate::json::items_view(items@);
    let arr = Json::Arr(items);
    proof {
        crate::json::lemma_wf_list_char(iv);
        assert(arr@ == JsonV::Arr(iv));
        assert(json_wf(arr@));
    }
    let mut ms: Vec<(String, Json)> = Vec::new();
    let ghost m0 = ms@;
    ms.push((String::from_str("contents"), arr));
    proof {
        crate::json::lemma_members_view_push(m0, ms@.last());
        assert(ms@ == m0.push(ms@.last()));
        assert(crate::json::members_view(m0) =~= Seq::empty());
        assert(crate::json::members_view(ms@) =~= seq![("contents"@, JsonV::Arr(enc_contents(cv)))]);
        assert forall|k: int| 0 <= k && k < ms@.len() implies json_wf(
            #[trigger] crate::json::members_view(ms@)[k].1,
        ) by {}
    }
    let ghost ms1 = crate::json::members_view(ms@);
    let ghost m1 = ms@;
    match &r.generation_config {
        Some(g) => {
            ms.push((String::from_str("generationConfig"), encode_gen(g)));
            proof {
                crate::json::lemma_members_view_push(m1, ms@.last());
                assert(ms@ == m1.push(ms@.last()));
            }
        },
        None => {},
    }
    proof {
        assert(crate::json::members_view(ms@) =~= ms1 + (match r@.generation_config {
            Option::Some(g) => seq![("generationConfig"@, enc_gen(g))],
            Option::None => Seq::empty(),
        }));
        assert forall|k: int| 0 <= k && k < ms@.len() implies json_wf(
            #[trigger] crate::json::members_view(ms@)[k].1,
        ) by {}
    }
    let ghost msv = crate::json::members_view(ms@);
    let j = Json::Obj(ms);
    proof {
        assert(j@ == JsonV::Obj(msv));
        assert(j@ =~~= enc_request(r@));
        crate::json::lemma_wf_members_char(msv);
        assert(json_wf(j@));
    }
    j
}

/// A u32 read from a JSON number: an all-digit token of value at most
/// `u32::MAX`.
pub open spec fn dec_u32(v: JsonV) -> Option<u32> {
    match v {
        JsonV::Num(t) => match crate::num::int_token_val(t, 4294967295) {
            Option::Some(n) => Option::Some(n as u32),
            Option::None => Option::None,
        },
        _ => Option::None,
    }
}

/// A number token read from a JSON number.
pub open spec fn dec_tok(v: JsonV) -> Option<Seq<char>> {
    match v {
        JsonV::Num(t) => if is_number_token(t) {
            Option::Some(t)
        } else {
            Option::None
        },
        _ => Option::None,
    }
}

/// A string read from a JSON string.
pub open spec fn dec_text(v: JsonV) -> Option<Seq<char>> {
    match v {
        JsonV::Str(t) => Option::Some(t),
        _ => Option::None,
    }
}

pub open spec fn dec_part_ms(ms: Seq<(Seq<char>, JsonV)>, text: Option<Seq<char>>) -> Option<PartV>
    decreases ms.len(),
{
    if ms.len() == 0 {
        match text {
            Option::Some(t) => Option::Some(PartV { text: t }),
            Option::None => Option::None,
        }
    } else {
        let k = ms[0].0;
        let v = ms[0].1;
        if k == "text"@ {
            if text is Some {
                Option::None
            } else {
                match dec_text(v) {
                    Option::Some(t) => dec_part_ms(ms.drop_first(), Option::Some(t)),
                    Option::None => Option::None,
                }
            }
        } else {
            dec_part_ms(ms.drop_first(), text)
        }
    }
}

/// One part read from its wire JSON: an object with a required `text`
/// string, unknown members ignored, duplicates rejected.
pub open spec fn dec_part(v: JsonV) -> Option<PartV> {
    match v {
        JsonV::Obj(ms) => dec_part_ms(ms, Option::None),
        _ => Option::None,
    }
}

pub open spec fn dec_parts_list(items: Seq<JsonV>) -> Option<Seq<PartV>>
    decreases items.len(),
{
    if items.len() == 0 {
        Option::Some(Seq::empty())
    } else {
        match dec_part(items[0]) {
            Option::Some(p) => match dec_parts_list(items.drop_first()) {
                Option::Some(rest) => Option::Some(seq![p] + rest),
                Option::None => Option::None,
            },
            Option::None => Option::None,
        }
    }
}

pub open spec fn dec_content_ms(
    ms: Seq<(Seq<char>, JsonV)>,
    parts: Option<Seq<PartV>>,
) -> Option<ContentV>
    decreases ms.len(),
{
    if ms.len() == 0 {
        match parts {
            Option::Some(ps) => Option::Some(ContentV { parts: ps }),
            Option::None => Option::None,
        }
    } else {
        let k = ms[0].0;
        let v = ms[0].1;
        if k == "parts"@ {
            if parts is Some {
                Option::None
            } else {
                match v {
                    JsonV::Arr(items) => match dec_parts_list(items) {
                        Option::Some(ps) => dec_content_ms(ms.drop_first(), Option::Some(ps)),
                        Option::None => Option::None,
                    },
                    _ => Option::None,
                }
            }
        } else {
            dec_content_ms(ms.drop_first(), parts)
        }
    }
}

/// One content block read from its wire JSON: an object with a required
/// `parts` array.
pub open spec fn dec_content(v: JsonV) -> Option<ContentV> {
    match v {
        JsonV::Obj(ms) => dec_content_ms(ms, Option::None),
        _ => Option::None,
    }
}

pub open spec fn dec_contents_list(items: Seq<JsonV>) -> Option<Seq<ContentV>>
    decreases items.len(),
{
    if items.len() == 0 {
        Option::Some(Seq::empty())
    } else {
        match dec_content(items[0]) {
            Option::Some(c) => match dec_contents_list(items.drop_first()) {
                Option::Some(rest) => Option::Some(seq![c] + rest),
                Option::None => Option::None,
            },
            Option::None => Option::None,
        }
    }
}

pub open spec fn dec_thinking_ms(
    ms: Seq<(Seq<char>, JsonV)>,
    budget: Option<Option<u32>>,
    level: Option<Option<Seq<char>>>,
) -> Option<ApiThinkingConfigV>
    decreases ms.len(),
{
    if ms.len() == 0 {
        Option::Some(
            ApiThinkingConfigV {
                thinking_budget: match budget {
                    Option::Some(b) => b,
                    Option::None => Option::None,
                },
                thinking_level: match level {
                    Option::Some(l) => l,
                    Option::None => Option::None,
                },
            },
        )
    } else {
        let k = ms[0].0;
        let v = ms[0].1;
        if k == "thinkingBudget"@ {
            if budget is Some {
                Option::None
            } else {
                match dec_u32(v) {
                    Option::Some(b) => dec_thinking_ms(
                        ms.drop_first(),
                        Option::Some(Option::Some(b)),
                        level,
                    ),
                    Option::None => Option::None,
                }
            }
        } else if k == "thinkingLevel"@ {
            if level is Some {
                Option::None
            } else {
                match dec_text(v) {
                    Option::Some(l) => dec_thinking_ms(
                        ms.drop_first(),
                        budget,
                        Option::Some(Option::Some(l)),
                    ),
                    Option::None => Option::None,
                }
            }
        } else {
            dec_thinking_ms(ms.drop_first(), budget, level)
        }
    }
}

/// The thinking control read from its wire JSON, both fields optional.
pub open spec fn dec_thinking(v: JsonV) -> Option<ApiThinkingConfigV> {
    match v {
        JsonV::Obj(ms) => dec_thinking_ms(ms, Option::None, Option::None),
        _ => Option::None,
    }
}

pub open spec fn dec_gen_ms(
    ms: Seq<(Seq<char>, JsonV)>,
    temperature: Option<Seq<char>>,
    top_p: Option<Seq<char>>,
    top_k: Option<u32>,
    max_output_tokens: Option<u32>,
    thinking: Option<ApiThinkingConfigV>,
) -> Option<ApiGenerationConfigV>
    decreases ms.len(),
{
    if ms.len() == 0 {
        Option::Some(
            ApiGenerationConfigV {
                temperature,
                top_p,
                top_k,
                max_output_tokens,
                thinking_config: thinking,
            },
        )
    } else {
        let k = ms[0].0;
        let v = ms[0].1;
        if k == "temperature"@ {
            if temperature is Some {
                Option::None
            } else {
                match dec_tok(v) {
                    Option::Some(t) => dec_gen_ms(
                        ms.drop_first(),
                        Option::Some(t),
                        top_p,
                        top_k,
                        max_output_tokens,
                        thinking,
                    ),
                    Option::None => Option::None,
                }
            }
        } else if k == "topP"@ {
            if top_p is Some {
                Option::None
            } else {
                match dec_tok(v) {
                    Option::Some(t) => dec_gen_ms(
                        ms.drop_first(),
                        temperature,
                        Option::Some(t),
                        top_k,
                        max_output_tokens,
                        thinking,
                    ),
                    Option::None => Option::None,
                }
            }
        } else if k == "topK"@ {
            if top_k is Some {
                Option::None
            } else {
                match dec_u32(v) {
                    Option::Some(n) => dec_gen_ms(
                        ms.drop_first(),
                        temperature,
                        top_p,
                        Option::Some(n),
                        max_output_tokens,
                        thinking,
                    ),
                    Option::None => Option::None,
                }
            }
        } else if k == "maxOutputTokens"@ {
            if max_output_tokens is Some {
                Option::None
            } else {
                match dec_u32(v) {
                    Option::Some(n) => dec_gen_ms(
                        ms.drop_first(),
                        temperature,
                        top_p,
                        top_k,
                        Option::Some(n),
                        thinking,
                    ),
                    Option::None => Option::None,
                }
            }
        } else if k == "thinkingConfig"@ {
            if thinking is Some {
                Option::None
            } else {
                match dec_thinking(v) {
                    Option::Some(t) => dec_gen_ms(
                        ms.drop_first(),
                        temperature,
                        top_p,
                        top_k,
                        max_output_tokens,
                        Option::Some(t),
                    ),
                    Option::None => Option::None,
                }
            }
        } else {
            dec_gen_ms(ms.drop_first(), temperature, top_p, top_k, max_output_tokens, thinking)
        }
    }
}

/// The generation parameters read from their wire JSON, every field
/// optional, duplicates rejected, unknown members ignored.
pub open spec fn dec_gen(v: JsonV) -> Option<ApiGenerationConfigV> {
    match v {
        JsonV::Obj(ms) => dec_gen_ms(
            ms,
            Option::None,
            Option::None,
            Option::None,
            Option::None,
            Option::None,
        ),
        _ => Option::None,
    }
}

pub open spec fn dec_req_ms(
    ms: Seq<(Seq<char>, JsonV)>,
    contents: Option<Seq<ContentV>>,
    gen: Option<Option<ApiGenerationConfigV>>,
) -> Option<RequestEnvelopeV>
    decreases ms.len(),
{
    if ms.len() == 0 {
        match contents {
            Option::Some(cs) => Option::Some(
                RequestEnvelopeV {
                    contents: cs,
                    generation_config: match gen {
                        Option::Some(g) => g,
                        Option::None => Option::None,
                    },
                },
            ),
            Option::None => Option::None,
        }
    } else {
        let k = ms[0].0;
        let v = ms[0].1;
        if k == "contents"@ {
            if contents is Some {
                Option::None
            } else {
                match v {
                    JsonV::Arr(items) => match dec_contents_list(items) {
                        Option::Some(cs) => dec_req_ms(ms.drop_first(), Option::Some(cs), gen),
                        Option::None => Option::None,
                    },
                    _ => Option::None,
                }
            }
        } else if k == "generationConfig"@ {
            if gen is Some {
                Option::None
            } else {
                match v {
                    JsonV::Null => dec_req_ms(ms.drop_first(), contents, Option::Some(Option::None)),
                    _ => match dec_gen(v) {
                        Option::Some(g) => dec_req_ms(
                            ms.drop_first(),
                            contents,
                            Option::Some(Option::Some(g)),
                        ),
                        Option::None => Option::None,
                    },
                }
            }
        } else {
            dec_req_ms(ms.drop_first(), contents, gen)
        }
    }
}

/// The request envelope read from its wire JSON: an object with a required
/// `contents` array and an optional `generationConfig` object.
pub open spec fn dec_request(v: JsonV) -> Option<RequestEnvelopeV> {
    match v {
        JsonV::Obj(ms) => dec_req_ms(ms, Option::None, Option::None),
        _ => Option::None,
    }
}

/// Validity of an envelope: every fractional parameter it carries is a
/// well-formed number token, as the `Decimal` type guarantees.
pub open spec fn req_wf(r: RequestEnvelopeV) -> bool {
    match r.generation_config {
        Option::Some(g) => (match g.temperature {
            Option::Some(t) => is_number_token(t),
            Option::None => true,
        }) && (match g.top_p {
            Option::Some(t) => is_number_token(t),
            Option::None => true,
        }),
        Option::None => true,
    }
}

pub proof fn lemma_enc_parts_props(ps: Seq<PartV>)
    ensures
        enc_parts(ps).len() == ps.len(),
        forall|k: int| 0 <= k && k < ps.len() ==> #[trigger] enc_parts(ps)[k] == enc_part(ps[k]),
    decreases ps.len(),
{
    if ps.len() > 0 {
        lemma_enc_parts_props(ps.drop_last());
        assert forall|k: int| 0 <= k && k < ps.len() implies #[trigger] enc_parts(ps)[k]
            == enc_part(ps[k]) by {
            if k < ps.len() - 1 {
                assert(enc_parts(ps)[k] == enc_parts(ps.drop_last())[k]);
                assert(ps.drop_last()[k] == ps[k]);
            } else {
                assert(enc_parts(ps)[k] == enc_part(ps.last()));
            }
        }
    }
}

pub proof fn lemma_enc_contents_props(cs: Seq<ContentV>)
    ensures
        enc_contents(cs).len() == cs.len(),
        forall|k: int| 0 <= k && k < cs.len() ==> #[trigger] enc_contents(cs)[k] == enc_content(
            cs[k],
        ),
    decreases cs.len(),
{
    if cs.len() > 0 {
        lemma_enc_contents_props(cs.drop_last());
        assert forall|k: int| 0 <= k && k < cs.len() implies #[trigger] enc_contents(cs)[k]
            == enc_content(cs[k]) by {
            if k < cs.len() - 1 {
                assert(enc_contents(cs)[k] == enc_contents(cs.drop_last())[k]);
                assert(cs.drop_last()[k] == cs[k]);
            } else {
                assert(enc_contents(cs)[k] == enc_content(cs.last()));
            }
        }
    }
}

pub proof fn lemma_part_rt(p: PartV)
    ensures
        dec_part(enc_part(p)) == Some(p),
{
    let ms = seq![("text"@, JsonV::Str(p.text))];
    assert(ms[0].0 == "text"@);
    assert(ms.drop_first() =~= Seq::<(Seq<char>, JsonV)>::empty());
    assert(dec_part_ms(ms.drop_first(), Some(p.text)) == Some(PartV { text: p.text }));
    assert(dec_part_ms(ms, Option::None) == Some(PartV { text: p.text }));
}

pub proof fn lemma_parts_list_rt(ps: Seq<PartV>)
    ensures
        dec_parts_list(enc_parts(ps)) == Some(ps),
    decreases ps.len(),
{
    lemma_enc_parts_props(ps);
    let items = enc_parts(ps);
    if ps.len() == 0 {
        assert(items.len() == 0);
        assert(ps =~= Seq::<PartV>::empty());
    } else {
        assert(items[0] == enc_part(ps[0]));
        lemma_part_rt(ps[0]);
        lemma_parts_list_rt(ps.drop_first());
        lemma_enc_parts_props(ps.drop_first());
        assert(items.drop_first() =~= enc_parts(ps.drop_first())) by {
            assert(items.drop_first().len() == ps.len() - 1);
            assert forall|k: int| 0 <= k && k < items.drop_first().len() implies items.drop_first()[k]
                == enc_parts(ps.drop_first())[k] by {
                assert(items.drop_first()[k] == items[k + 1]);
                assert(items[k + 1] == enc_part(ps[k + 1]));
                assert(ps.drop_first()[k] == ps[k + 1]);
            }
        }
        assert(dec_parts_list(items) == Some(seq![ps[0]] + ps.drop_first()));
        assert(seq![ps[0]] + ps.drop_first() =~= ps);
    }
}

pub proof fn lemma_content_rt(c: ContentV)
    ensures
        dec_content(enc_content(c)) == Some(c),
{
    let ms = seq![("parts"@, JsonV::Arr(enc_parts(c.parts)))];
    assert(ms[0].0 == "parts"@);
    lemma_parts_list_rt(c.parts);
    assert(ms.drop_first() =~= Seq::<(Seq<char>, JsonV)>::empty());
    assert(dec_content_ms(ms.drop_first(), Some(c.parts)) == Some(ContentV { parts: c.parts }));
    assert(dec_content_ms(ms, Option::None) == Some(ContentV { parts: c.parts }));
}

pub proof fn lemma_contents_list_rt(cs: Seq<ContentV>)
    ensures
        dec_contents_list(enc_contents(cs)) == Some(cs),
    decreases cs.len(),
{
    lemma_enc_contents_props(cs);
    let items = enc_contents(cs);
    if cs.len() == 0 {
        assert(items.len() == 0);
        assert(cs =~= Seq::<ContentV>::empty());
    } else {
        assert(items[0] == enc_content(cs[0]));
        lemma_content_rt(cs[0]);
        lemma_contents_list_rt(cs.drop_first());
        lemma_enc_contents_props(cs.drop_first());
        assert(items.drop_first() =~= enc_contents(cs.drop_first())) by {
            assert(items.drop_first().len() == cs.len() - 1);
            assert forall|k: int| 0 <= k && k < items.drop_first().len() implies items.drop_first()[k]
                == enc_contents(cs.drop_first())[k] by {
                assert(items.drop_first()[k] == items[k + 1]);
                assert(items[k + 1] == enc_content(cs[k + 1]));
                assert(cs.drop_first()[k] == cs[k + 1]);
            }
        }
        assert(dec_contents_list(items) == Some(seq![cs[0]] + cs.drop_first()));
        assert(seq![cs[0]] + cs.drop_first() =~= cs);
    }
}

pub proof fn lemma_u32_rt(n: u32)
    ensures
        dec_u32(JsonV::Num(dec_str(n as nat))) == Some(n),
{
    crate::num::lemma_dec_str_chars(n as nat);
    crate::num::lemma_dec_str_val(n as nat);
    let t = dec_str(n as nat);
    assert(crate::num::all_digits(t));
    assert(crate::num::digits_val(t) == n as nat);
    assert(crate::num::int_token_val(t, 4294967295) == Some(n as u64));
}

proof fn lemma_key_facts()
    ensures
        "temperature"@ != "topP"@,
        "temperature"@ != "topK"@,
        "temperature"@ != "maxOutputTokens"@,
        "temperature"@ != "thinkingConfig"@,
        "topP"@ != "topK"@,
        "topP"@ != "maxOutputTokens"@,
        "topP"@ != "thinkingConfig"@,
        "topK"@ != "maxOutputTokens"@,
        "topK"@ != "thinkingConfig"@,
        "maxOutputTokens"@ != "thinkingConfig"@,
        "thinkingBudget"@ != "thinkingLevel"@,
        "contents"@ != "generationConfig"@,
{
    reveal_strlit("temperature");
    reveal_strlit("topP");
    reveal_strlit("topK");
    reveal_strlit("maxOutputTokens");
    reveal_strlit("thinkingConfig");
    reveal_strlit("thinkingBudget");
    reveal_strlit("thinkingLevel");
    reveal_strlit("contents");
    reveal_strlit("generationConfig");
    assert("topP"@.len() == 4);
    assert("topK"@.len() == 4);
    assert("topP"@[3] == 'P');
    assert("topK"@[3] == 'K');
    assert("maxOutputTokens"@.len() == 15);
    assert("thinkingConfig"@.len() == 14);
    assert("thinkingBudget"@.len() == 14);
    assert("thinkingConfig"@[8] == 'C');
    assert("thinkingBudget"@[8] == 'B');
    assert("thinkingLevel"@.len() == 13);
    assert("temperature"@.len() == 11);
    assert("contents"@.len() == 8);
    assert("generationConfig"@.len() == 16);
}

pub proof fn lemma_thinking_rt(t: ApiThinkingConfigV)
    ensures
        dec_thinking(enc_thinking(t)) == Some(t),
{
    lemma_key_facts();
    let bseg = opt_u32_member("thinkingBudget"@, t.thinking_budget);
    let lseg = opt_str_member("thinkingLevel"@, t.thinking_level);
    let ms = bseg + lseg;
    match t.thinking_budget {
        Option::Some(b) => {
            lemma_u32_rt(b);
            assert(ms[0] == ("thinkingBudget"@, JsonV::Num(dec_str(b as nat))));
            assert(ms.drop_first() =~= lseg);
            match t.thinking_level {
                Option::Some(l) => {
                    assert(lseg[0] == ("thinkingLevel"@, JsonV::Str(l)));
                    assert(lseg.drop_first() =~= Seq::<(Seq<char>, JsonV)>::empty());
                    assert(dec_thinking_ms(lseg.drop_first(), Some(Some(b)), Some(Some(l)))
                        == Some(t));
                    assert(dec_thinking_ms(lseg, Some(Some(b)), Option::None) == Some(t));
                },
                Option::None => {
                    assert(lseg =~= Seq::<(Seq<char>, JsonV)>::empty());
                    assert(dec_thinking_ms(lseg, Some(Some(b)), Option::None) == Some(t));
                },
            }
            assert(dec_thinking_ms(ms, Option::None, Option::None) == Some(t));
        },
        Option::None => {
            assert(ms =~= lseg);
            match t.thinking_level {
                Option::Some(l) => {
                    assert(lseg[0] == ("thinkingLevel"@, JsonV::Str(l)));
                    assert(lseg.drop_first() =~= Seq::<(Seq<char>, JsonV)>::empty());
                    assert(dec_thinking_ms(lseg.drop_first(), Option::None, Some(Some(l)))
                        == Some(t));
                    assert(dec_thinking_ms(lseg, Option::None, Option::None) == Some(t));
                },
                Option::None => {
                    assert(lseg =~= Seq::<(Seq<char>, JsonV)>::empty());
                    assert(dec_thinking_ms(lseg, Option::None, Option::None) == Some(t));
                },
            }
            assert(dec_thinking_ms(ms, Option::None, Option::None) == Some(t));
        },
    }
}

proof fn lemma_gen_rt_tail4(g: ApiGenerationConfigV, temperature: Option<Seq<char>>)
    requires
        (match g.top_p {
            Option::Some(t) => is_number_token(t),
            Option::None => true,
        }),
    ensures
        dec_gen_ms(
            opt_tok_member("topP"@, g.top_p) + opt_u32_member("topK"@, g.top_k) + opt_u32_member(
                "maxOutputTokens"@,
                g.max_output_tokens,
            ) + (match g.thinking_config {
                Option::Some(t) => seq![("thinkingConfig"@, enc_thinking(t))],
                Option::None => Seq::empty(),
            }),
            temperature,
            Option::None,
            Option::None,
            Option::None,
            Option::None,
        ) == Some(
            ApiGenerationConfigV {
                temperature,
                top_p: g.top_p,
                top_k: g.top_k,
                max_output_tokens: g.max_output_tokens,
                thinking_config: g.thinking_config,
            },
        ),
{
    lemma_key_facts();
    let pseg = opt_tok_member("topP"@, g.top_p);
    let kseg = opt_u32_member("topK"@, g.top_k);
    let mseg = opt_u32_member("maxOutputTokens"@, g.max_output_tokens);
    let tseg: Seq<(Seq<char>, JsonV)> = match g.thinking_config {
        Option::Some(t) => seq![("thinkingConfig"@, enc_thinking(t))],
        Option::None => Seq::empty(),
    };
    let want = ApiGenerationConfigV {
        temperature,
        top_p: g.top_p,
        top_k: g.top_k,
        max_output_tokens: g.max_output_tokens,
        thinking_config: g.thinking_config,
    };
    // walk the thinking segment alone
    match g.thinking_config {
        Option::Some(t) => {
            lemma_thinking_rt(t);
            assert(tseg[0] == ("thinkingConfig"@, enc_thinking(t)));
            assert(tseg.drop_first() =~= Seq::<(Seq<char>, JsonV)>::empty());
            assert(dec_gen_ms(
                tseg.drop_first(),
                temperature,
                g.top_p,
                g.top_k,
                g.max_output_tokens,
                Option::Some(t),
            ) == Some(want));
            assert(dec_gen_ms(
                tseg,
                temperature,
                g.top_p,
                g.top_k,
                g.max_output_tokens,
                Option::None,
            ) == Some(want));
        },
        Option::None => {
            assert(dec_gen_ms(
                tseg,
                temperature,
                g.top_p,
                g.top_k,
                g.max_output_tokens,
                Option::None,
            ) == Some(want));
        },
    }
    // the max-output-tokens segment
    let r3 = tseg;
    match g.max_output_tokens {
        Option::Some(n) => {
            lemma_u32_rt(n);
            assert((mseg + r3)[0] == ("maxOutputTokens"@, JsonV::Num(dec_str(n as nat))));
            assert((mseg + r3).drop_first() =~= r3);
            assert(dec_gen_ms(mseg + r3, temperature, g.top_p, g.top_k, Option::None, Option::None)
                == Some(want));
        },
        Option::None => {
            assert(mseg + r3 =~= r3);
            assert(dec_gen_ms(mseg + r3, temperature, g.top_p, g.top_k, Option::None, Option::None)
                == Some(want));
        },
    }
    // the top-k segment
    let r2 = mseg + r3;
    match g.top_k {
        Option::Some(n) => {
            lemma_u32_rt(n);
            assert((kseg + r2)[0] == ("topK"@, JsonV::Num(dec_str(n as nat))));
            assert((kseg + r2).drop_first() =~= r2);
            assert(dec_gen_ms(
                kseg + r2,
                temperature,
                g.top_p,
                Option::None,
                Option::None,
                Option::None,
            ) == Some(want));
        },
        Option::None => {
            assert(kseg + r2 =~= r2);
            assert(dec_gen_ms(
                kseg + r2,
                temperature,
                g.top_p,
                Option::None,
                Option::None,
                Option::None,
            ) == Some(want));
        },
    }
    // the top-p segment
    let r1 = kseg + r2;
    match g.top_p {
        Option::Some(t) => {
            assert((pseg + r1)[0] == ("topP"@, JsonV::Num(t)));
            assert((pseg + r1).drop_first() =~= r1);
            assert(dec_gen_ms(
                pseg + r1,
                temperature,
                Option::None,
                Option::None,
                Option::None,
                Option::None,
            ) == Some(want));
        },
        Option::None => {
            assert(pseg + r1 =~= r1);
            assert(dec_gen_ms(
                pseg + r1,
                temperature,
                Option::None,
                Option::None,
                Option::None,
                Option::None,
            ) == Some(want));
        },
    }
    assert(pseg + kseg + mseg + tseg =~= pseg + (kseg + (mseg + tseg)));
}

pub proof fn lemma_gen_rt(g: ApiGenerationConfigV)
    requires
        (match g.temperature {
            Option::Some(t) => is_number_token(t),
            Option::None => true,
        }),
        (match g.top_p {
            Option::Some(t) => is_number_token(t),
            Option::None => true,
        }),
    ensures
        dec_gen(enc_gen(g)) == Some(g),
{
    lemma_key_facts();
    let tseg = opt_tok_member("temperature"@, g.temperature);
    let rest = opt_tok_member("topP"@, g.top_p) + opt_u32_member("topK"@, g.top_k)
        + opt_u32_member("maxOutputTokens"@, g.max_output_tokens) + (match g.thinking_config {
        Option::Some(t) => seq![("thinkingConfig"@, enc_thinking(t))],
        Option::None => Seq::empty(),
    });
    lemma_gen_rt_tail4(g, g.temperature);
    let want = ApiGenerationConfigV {
        temperature: g.temperature,
        top_p: g.top_p,
        top_k: g.top_k,
        max_output_tokens: g.max_output_tokens,
        thinking_config: g.thinking_config,
    };
    assert(want == g);
    match g.temperature {
        Option::Some(t) => {
            assert((tseg + rest)[0] == ("temperature"@, JsonV::Num(t)));
            assert((tseg + rest).drop_first() =~= rest);
            assert(dec_gen_ms(
                tseg + rest,
                Option::None,
                Option::None,
                Option::None,
                Option::None,
                Option::None,
            ) == Some(g));
        },
        Option::None => {
            assert(tseg + rest =~= rest);
            assert(dec_gen_ms(
                tseg + rest,
                Option::None,
                Option::None,
                Option::None,
                Option::None,
                Option::None,
            ) == Some(g));
        },
    }
    assert(enc_gen(g) == JsonV::Obj(
        tseg + opt_tok_member("topP"@, g.top_p) + opt_u32_member("topK"@, g.top_k)
            + opt_u32_member("maxOutputTokens"@, g.max_output_tokens) + (match g.thinking_config {
            Option::Some(t) => seq![("thinkingConfig"@, enc_thinking(t))],
            Option::None => Seq::empty(),
        }),
    ));
    assert(tseg + opt_tok_member("topP"@, g.top_p) + opt_u32_member("topK"@, g.top_k)
        + opt_u32_member("maxOutputTokens"@, g.max_output_tokens) + (match g.thinking_config {
        Option::Some(t) => seq![("thinkingConfig"@, enc_thinking(t))],
        Option::None => Seq::empty(),
    }) =~= tseg + rest);
}

/// Law: serializing a request envelope and reading it back with the same
/// schema restores it field for field.
pub proof fn lemma_request_round_trip(r: RequestEnvelopeV)
    requires
        req_wf(r),
    ensures
        dec_request(enc_request(r)) == Some(r),
{
    lemma_key_facts();
    let cseg = seq![("contents"@, JsonV::Arr(enc_contents(r.contents)))];
    let gseg: Seq<(Seq<char>, JsonV)> = match r.generation_config {
        Option::Some(g) => seq![("generationConfig"@, enc_gen(g))],
        Option::None => Seq::empty(),
    };
    let ms = cseg + gseg;
    lemma_contents_list_rt(r.contents);
    match r.generation_config {
        Option::Some(g) => {
            lemma_gen_rt(g);
            assert(gseg[0] == ("generationConfig"@, enc_gen(g)));
            assert(enc_gen(g) is Obj);
            assert(gseg.drop_first() =~= Seq::<(Seq<char>, JsonV)>::empty());
            assert(dec_req_ms(gseg.drop_first(), Some(r.contents), Some(Some(g))) == Some(r));
            assert(dec_req_ms(gseg, Some(r.contents), Option::None) == Some(r));
        },
        Option::None => {
            assert(dec_req_ms(gseg, Some(r.contents), Option::None) == Some(r));
        },
    }
    assert(ms[0] == ("contents"@, JsonV::Arr(enc_contents(r.contents))));
    assert(ms.drop_first() =~= gseg);
    assert(dec_req_ms(ms, Option::None, Option::None) == Some(r));
}

/// Law: when both thinking fields are set, the built request carries the
/// named level and omits the numeric budget, in the envelope and on the
/// wire.
pub proof fn lemma_thinking_level_precedence(g: GeminiConfigV, p: Seq<char>)
    requires
        g.thinking_level is Some,
        g.thinking_budget is Some,
    ensures
        build_spec(g, p).generation_config matches Option::Some(gc) && gc.thinking_config
            == Option::Some(
            ApiThinkingConfigV {
                thinking_budget: Option::None,
                thinking_level: g.thinking_level,
            },
        ),
        enc_thinking(thinking_of(g)->0) == JsonV::Obj(
            seq![("thinkingLevel"@, JsonV::Str(g.thinking_level->0))],
        ),
{
    let t = thinking_of(g)->0;
    assert(opt_u32_member("thinkingBudget"@, t.thinking_budget) =~=
        Seq::<(Seq<char>, JsonV)>::empty());
    assert(opt_u32_member("thinkingBudget"@, t.thinking_budget) + opt_str_member(
        "thinkingLevel"@,
        t.thinking_level,
    ) =~= seq![("thinkingLevel"@, JsonV::Str(g.thinking_level->0))]);
}

/// Law: when every optional generation parameter is unset, the built
/// request omits the generation-parameters object entirely: its wire JSON
/// holds the contents member and nothing else.
pub proof fn lemma_no_empty_object(g: GeminiConfigV, p: Seq<char>)
    requires
        params_unset(g),
    ensures
        build_spec(g, p).generation_config is None,
        enc_request(build_spec(g, p)) == JsonV::Obj(
            seq![("contents"@, JsonV::Arr(enc_contents(build_spec(g, p).contents)))],
        ),
{
    let r = build_spec(g, p);
    assert(seq![("contents"@, JsonV::Arr(enc_contents(r.contents)))] + Seq::empty() =~= seq![
        ("contents"@, JsonV::Arr(enc_contents(r.contents))),
    ]);
}

pub proof fn lemma_obj_wf_split(a: Seq<(Seq<char>, JsonV)>, b: Seq<(Seq<char>, JsonV)>)
    ensures
        json_wf(JsonV::Obj(a + b)) == (json_wf(JsonV::Obj(a)) && json_wf(JsonV::Obj(b))),
{
    crate::json::lemma_wf_members_char(a);
    crate::json::lemma_wf_members_char(b);
    crate::json::lemma_wf_members_char(a + b);
    if json_wf(JsonV::Obj(a)) && json_wf(JsonV::Obj(b)) {
        assert forall|k: int| 0 <= k && k < (a + b).len() implies json_wf(#[trigger] (a + b)[k].1) by {
            if k < a.len() {
                assert((a + b)[k] == a[k]);
                assert(json_wf(a[k].1));
            } else {
                assert((a + b)[k] == b[k - a.len()]);
                assert(json_wf(b[k - a.len()].1));
            }
        }
    }
    if json_wf(JsonV::Obj(a + b)) {
        assert forall|k: int| 0 <= k && k < a.len() implies json_wf(#[trigger] a[k].1) by {
            assert((a + b)[k] == a[k]);
            assert(json_wf((a + b)[k].1));
        }
        assert forall|k: int| 0 <= k && k < b.len() implies json_wf(#[trigger] b[k].1) by {
            assert((a + b)[a.len() + k] == b[k]);
            assert(json_wf((a + b)[a.len() + k].1));
        }
    }
}

pub proof fn lemma_enc_part_wf(p: PartV)
    ensures
        json_wf(enc_part(p)),
{
    let ms = seq![("text"@, JsonV::Str(p.text))];
    assert forall|k: int| 0 <= k && k < ms.len() implies json_wf(#[trigger] ms[k].1) by {
        assert(ms[k].1 == JsonV::Str(p.text));
    }
    crate::json::lemma_wf_members_char(ms);
}

pub proof fn lemma_enc_content_wf(c: ContentV)
    ensures
        json_wf(enc_content(c)),
{
    lemma_enc_parts_props(c.parts);
    assert forall|k: int| 0 <= k && k < enc_parts(c.parts).len() implies json_wf(
        #[trigger] enc_parts(c.parts)[k],
    ) by {
        lemma_enc_part_wf(c.parts[k]);
    }
    crate::json::lemma_wf_list_char(enc_parts(c.parts));
    assert(json_wf(JsonV::Arr(enc_parts(c.parts))));
    let ms = seq![("parts"@, JsonV::Arr(enc_parts(c.parts)))];
    assert forall|k: int| 0 <= k && k < ms.len() implies json_wf(#[trigger] ms[k].1) by {
        assert(ms[k].1 == JsonV::Arr(enc_parts(c.parts)));
    }
    crate::json::lemma_wf_members_char(ms);
}

pub proof fn lemma_enc_thinking_wf(t: ApiThinkingConfigV)
    ensures
        json_wf(enc_thinking(t)),
{
    let bseg = opt_u32_member("thinkingBudget"@, t.thinking_budget);
    let lseg = opt_str_member("thinkingLevel"@, t.thinking_level);
    assert forall|k: int| 0 <= k && k < bseg.len() implies json_wf(#[trigger] bseg[k].1) by {
        crate::num::lemma_dec_str_token(t.thinking_budget->0 as nat);
        assert(bseg[k].1 == JsonV::Num(dec_str(t.thinking_budget->0 as nat)));
    }
    crate::json::lemma_wf_members_char(bseg);
    assert(json_wf(JsonV::Obj(bseg)));
    assert forall|k: int| 0 <= k && k < lseg.len() implies json_wf(#[trigger] lseg[k].1) by {
        assert(lseg[k].1 == JsonV::Str(t.thinking_level->0));
    }
    crate::json::lemma_wf_members_char(lseg);
    assert(json_wf(JsonV::Obj(lseg)));
    lemma_obj_wf_split(bseg, lseg);
}

pub proof fn lemma_enc_gen_wf(g: ApiGenerationConfigV)
    requires
        (match g.temperature {
            Option::Some(t) => is_number_token(t),
            Option::None => true,
        }),
        (match g.top_p {
            Option::Some(t) => is_number_token(t),
            Option::None => true,
        }),
    ensures
        json_wf(enc_gen(g)),
{
    let s1 = opt_tok_member("temperature"@, g.temperature);
    let s2 = opt_tok_member("topP"@, g.top_p);
    let s3 = opt_u32_member("topK"@, g.top_k);
    let s4 = opt_u32_member("maxOutputTokens"@, g.max_output_tokens);
    let s5: Seq<(Seq<char>, JsonV)> = match g.thinking_config {
        Option::Some(t) => seq![("thinkingConfig"@, enc_thinking(t))],
        Option::None => Seq::empty(),
    };
    assert forall|k: int| 0 <= k && k < s1.len() implies json_wf(#[trigger] s1[k].1) by {
        assert(s1[k].1 == JsonV::Num(g.temperature->0));
    }
    crate::json::lemma_wf_members_char(s1);
    assert(json_wf(JsonV::Obj(s1)));
    assert forall|k: int| 0 <= k && k < s2.len() implies json_wf(#[trigger] s2[k].1) by {
        assert(s2[k].1 == JsonV::Num(g.top_p->0));
    }
    crate::json::lemma_wf_members_char(s2);
    assert(json_wf(JsonV::Obj(s2)));
    assert forall|k: int| 0 <= k && k < s3.len() implies json_wf(#[trigger] s3[k].1) by {
        crate::num::lemma_dec_str_token(g.top_k->0 as nat);
        assert(s3[k].1 == JsonV::Num(dec_str(g.top_k->0 as nat)));
    }
    crate::json::lemma_wf_members_char(s3);
    assert(json_wf(JsonV::Obj(s3)));
    assert forall|k: int| 0 <= k && k < s4.len() implies json_wf(#[trigger] s4[k].1) by {
        crate::num::lemma_dec_str_token(g.max_output_tokens->0 as nat);
        assert(s4[k].1 == JsonV::Num(dec_str(g.max_output_tokens->0 as nat)));
    }
    crate::json::lemma_wf_members_char(s4);
    assert(json_wf(JsonV::Obj(s4)));
    assert forall|k: int| 0 <= k && k < s5.len() implies json_wf(#[trigger] s5[k].1) by {
        lemma_enc_thinking_wf(g.thinking_config->0);
        assert(s5[k].1 == enc_thinking(g.thinking_config->0));
    }
    crate::json::lemma_wf_members_char(s5);
    assert(json_wf(JsonV::Obj(s5)));
    lemma_obj_wf_split(s4, s5);
    lemma_obj_wf_split(s3, s4 + s5);
    lemma_obj_wf_split(s2, s3 + (s4 + s5));
    lemma_obj_wf_split(s1, s2 + (s3 + (s4 + s5)));
    assert(s1 + s2 + s3 + s4 + s5 =~= s1 + (s2 + (s3 + (s4 + s5))));
    assert(json_wf(JsonV::Obj(s1 + s2 + s3 + s4 + s5)));
}

/// The encoded request of a valid envelope is a well-formed JSON document.
pub proof fn lemma_enc_request_wf(r: RequestEnvelopeV)
    requires
        req_wf(r),
    ensures
        json_wf(enc_request(r)),
{
    lemma_enc_contents_props(r.contents);
    assert forall|k: int| 0 <= k && k < enc_contents(r.contents).len() implies json_wf(
        #[trigger] enc_contents(r.contents)[k],
    ) by {
        lemma_enc_content_wf(r.contents[k]);
    }
    crate::json::lemma_wf_list_char(enc_contents(r.contents));
    assert(json_wf(JsonV::Arr(enc_contents(r.contents))));
    let cseg = seq![("contents"@, JsonV::Arr(enc_contents(r.contents)))];
    let gseg: Seq<(Seq<char>, JsonV)> = match r.generation_config {
        Option::Some(g) => seq![("generationConfig"@, enc_gen(g))],
        Option::None => Seq::empty(),
    };
    assert forall|k: int| 0 <= k && k < cseg.len() implies json_wf(#[trigger] cseg[k].1) by {
        assert(cseg[k].1 == JsonV::Arr(enc_contents(r.contents)));
    }
    crate::json::lemma_wf_members_char(cseg);
    assert(json_wf(JsonV::Obj(cseg)));
    assert forall|k: int| 0 <= k && k < gseg.len() implies json_wf(#[trigger] gseg[k].1) by {
        lemma_enc_gen_wf(r.generation_config->0);
        assert(gseg[k].1 == enc_gen(r.generation_config->0));
    }
    crate::json::lemma_wf_members_char(gseg);
    assert(json_wf(JsonV::Obj(gseg)));
    lemma_obj_wf_split(cseg, gseg);
}

/// Law: the full wire round trip.  The serialized text of a valid request
/// envelope parses back to its wire JSON, and decoding that JSON restores
/// the envelope field for field.
pub proof fn lemma_request_text_round_trip(r: RequestEnvelopeV)
    requires
        req_wf(r),
    ensures
        crate::parse::spec_json(crate::emit::text_of(enc_request(r))) == Option::Some(
            enc_request(r),
        ),
        dec_request(enc_request(r)) == Option::Some(r),
{
    lemma_enc_request_wf(r);
    crate::round_trip::lemma_parse_of_emit(enc_request(r));
    lemma_request_round_trip(r);
}

} // verus!
