//! The configuration model the client consumes: provider selection, timeout,
//! provider tuning parameters, and named prompt templates.  Loading and
//! parsing the configuration file happen outside this crate; the client only
//! consumes an already-parsed instance.

use vstd::prelude::*;
use crate::num::Decimal;
use crate::num::dec_str;
use crate::num::u32_to_dec;

verus! {

/// The configuration schema version this library understands.
pub const VERSION: u32 = 1;

/// Ghost model of the provider-specific configuration.
#[verifier::ext_equal]
pub struct GeminiConfigV {
    pub key: Seq<char>,
    pub model: Seq<char>,
    pub temperature: Option<Seq<char>>,
    pub top_p: Option<Seq<char>>,
    pub top_k: Option<u32>,
    pub max_output_tokens: Option<u32>,
    pub thinking_budget: Option<u32>,
    pub thinking_level: Option<Seq<char>>,
}

/// Provider-specific configuration: credential, model identifier, and
/// optional generation tuning parameters.  Fractional parameters are carried
/// as validated decimal text.
#[derive(Debug)]
pub struct GeminiConfig {
    pub key: String,
    pub model: String,
    pub temperature: Option<Decimal>,
    pub top_p: Option<Decimal>,
    pub top_k: Option<u32>,
    pub max_output_tokens: Option<u32>,
    pub thinking_budget: Option<u32>,
    pub thinking_level: Option<String>,
}

pub open spec fn opt_dec_view(o: Option<Decimal>) -> Option<Seq<char>> {
    match o {
        Option::Some(d) => Option::Some(d@),
        Option::None => Option::None,
    }
}

pub open spec fn opt_string_view(o: Option<String>) -> Option<Seq<char>> {
    match o {
        Option::Some(s) => Option::Some(s@),
        Option::None => Option::None,
    }
}

impl View for GeminiConfig {
    type V = GeminiConfigV;

    open spec fn view(&self) -> GeminiConfigV {
        GeminiConfigV {
            key: self.key@,
            model: self.model@,
            temperature: opt_dec_view(self.temperature),
            top_p: opt_dec_view(self.top_p),
            top_k: self.top_k,
            max_output_tokens: self.max_output_tokens,
            thinking_budget: self.thinking_budget,
            thinking_level: opt_string_view(self.thinking_level),
        }
    }
}

/// Ghost model of the whole configuration.
#[verifier::ext_equal]
pub struct ConfigV {
    pub version: u32,
    pub provider: Seq<char>,
    pub timeout: u32,
    pub gemini: Option<GeminiConfigV>,
    pub prompt: Seq<(Seq<char>, Seq<char>)>,
}

/// The configuration: schema version, provider name, request timeout in
/// milliseconds, provider block, and named prompt templates in file order.
#[derive(Debug)]
pub struct Config {
    pub version: u32,
    pub provider: String,
    pub timeout: u32,
    pub gemini: Option<GeminiConfig>,
    pub prompt: Vec<(String, String)>,
}

/// The views of a sequence of prompt-template entries.
pub open spec fn pairs_view(v: Seq<(String, String)>) -> Seq<(Seq<char>, Seq<char>)>
    decreases v.len(),
{
    if v.len() == 0 {
        Seq::empty()
    } else {
        pairs_view(v.drop_last()).push((v.last().0@, v.last().1@))
    }
}

pub proof fn lemma_pairs_view(v: Seq<(String, String)>)
    ensures
        pairs_view(v).len() == v.len(),
        forall|k: int| 0 <= k && k < v.len() ==> #[trigger] pairs_view(v)[k] == (
            v[k].0@,
            v[k].1@,
        ),
    decreases v.len(),
{
    if v.len() > 0 {
        lemma_pairs_view(v.drop_last());
        assert forall|k: int| 0 <= k && k < v.len() implies #[trigger] pairs_view(v)[k] == (
            v[k].0@,
            v[k].1@,
        ) by {
            if k < v.len() - 1 {
                assert(pairs_view(v)[k] == pairs_view(v.drop_last())[k]);
                assert(v.drop_last()[k] == v[k]);
            } else {
                assert(pairs_view(v)[k] == (v.last().0@, v.last().1@));
            }
        }
    }
}

impl View for Config {
    type V = ConfigV;

    open spec fn view(&self) -> ConfigV {
        ConfigV {
            version: self.version,
            provider: self.provider@,
            timeout: self.timeout,
            gemini: match self.gemini {
                Option::Some(g) => Option::Some(g@),
                Option::None => Option::None,
            },
            prompt: pairs_view(self.prompt@),
        }
    }
}

impl Clone for GeminiConfig {
    fn clone(&self) -> (r: Self)
        ensures
            r@ == self@,
    {
        GeminiConfig {
            key: self.key.clone(),
            model: self.model.clone(),
            temperature: match &self.temperature {
                Some(d) => Some(d.duplicate()),
                None => None,
            },
            top_p: match &self.top_p {
                Some(d) => Some(d.duplicate()),
                None => None,
            },
            top_k: self.top_k,
            max_output_tokens: self.max_output_tokens,
            thinking_budget: self.thinking_budget,
            thinking_level: match &self.thinking_level {
                Some(s) => Some(s.clone()),
                None => None,
            },
        }
    }
}

impl Clone for Config {
    fn clone(&self) -> (r: Self)
        ensures
            r@ == self@,
    {
        let mut prompt: Vec<(String, String)> = Vec::new();
        let mut i: usize = 0;
        while i < self.prompt.len()
            invariant
                i <= self.prompt.len(),
                prompt@.len() == i,
                forall|k: int| 0 <= k && k < i ==> #[trigger] prompt@[k].0@ == self.prompt@[k].0@
                    && prompt@[k].1@ == self.prompt@[k].1@,
            decreases self.prompt.len() - i,
        {
            let p = &self.prompt[i];
            prompt.push((p.0.clone(), p.1.clone()));
            i = i + 1;
        }
        proof {
            lemma_pairs_view(prompt@);
            lemma_pairs_view(self.prompt@);
            assert(pairs_view(prompt@) =~= pairs_view(self.prompt@));
        }
        Config {
            version: self.version,
            provider: self.provider.clone(),
            timeout: self.timeout,
            gemini: match &self.gemini {
                Some(g) => Some(g.clone()),
                None => None,
            },
            prompt,
        }
    }
}

/// The message reported when the configuration's schema version is not the
/// one this library understands.
pub open spec fn version_mismatch_msg(found: u32) -> Seq<char> {
    "Configuration file version mismatch. Expected major version "@ + dec_str(VERSION as nat)
        + ", found "@ + dec_str(found as nat)
        + ". Please update your config file or run with --init-config to generate a new one."@
}

/// Accepts exactly the configurations whose schema version matches.
pub fn ensure_version(config: &Config) -> (r: Result<(), String>)
    ensures
        r is Ok <==> config.version == VERSION,
        r matches Err(m) ==> m@ == version_mismatch_msg(config.version),
{
    if config.version == VERSION {
        Ok(())
    } else {
        let mut m = String::new();
        m.append("Configuration file version mismatch. Expected major version ");
        let expected = u32_to_dec(VERSION);
        m.append(expected.as_str());
        m.append(", found ");
        let found = u32_to_dec(config.version);
        m.append(found.as_str());
        m.append(
            ". Please update your config file or run with --init-config to generate a new one.",
        );
        Err(m)
    }
}

} // verus!
