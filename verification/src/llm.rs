//! The client facade: credential validation at construction, and the
//! request line and body for one prompt.  The network call itself happens
//! outside this crate; its status and body come back to `response::interpret`.

use vstd::prelude::*;
use crate::chars::eq_str;
use crate::config::Config;
use crate::config::ConfigV;
use crate::emit::emit;
use crate::emit::text_of;
use crate::request::build_request;
use crate::request::build_spec;
use crate::request::enc_request;
use crate::request::encode_request;

verus! {

broadcast use {vstd::seq::group_seq_axioms, vstd::seq_lib::group_seq_lib_default};

/// The supported providers.  A single closed variant today; adding one
/// means giving it its own request builder and interpreter.
#[derive(Debug, Clone, Copy)]
pub enum LlmProvider {
    Gemini,
}

impl LlmProvider {
    /// The provider's configuration name.
    pub fn as_str(&self) -> (r: &'static str)
        ensures
            r@ == "gemini"@,
    {
        match self {
            LlmProvider::Gemini => "gemini",
        }
    }
}

/// Ghost model of a construction failure.
#[verifier::ext_equal]
pub enum ConfigErrorV {
    UnsupportedProvider { provider: Seq<char> },
    MissingGeminiConfig,
    ApiKeyNotConfigured { provider: Seq<char> },
}

/// A construction failure: the configured provider is unknown, its
/// configuration block is absent, or the credential is empty or still the
/// documented placeholder.
#[derive(Debug)]
pub enum ConfigError {
    UnsupportedProvider { provider: String },
    MissingGeminiConfig,
    ApiKeyNotConfigured { provider: String },
}

impl View for ConfigError {
    type V = ConfigErrorV;

    open spec fn view(&self) -> ConfigErrorV {
        match self {
            ConfigError::UnsupportedProvider { provider } => ConfigErrorV::UnsupportedProvider {
                provider: provider@,
            },
            ConfigError::MissingGeminiConfig => ConfigErrorV::MissingGeminiConfig,
            ConfigError::ApiKeyNotConfigured { provider } => ConfigErrorV::ApiKeyNotConfigured {
                provider: provider@,
            },
        }
    }
}

/// Renders the construction failure for the user.
pub open spec fn spec_config_message(e: ConfigErrorV) -> Seq<char> {
    match e {
        ConfigErrorV::UnsupportedProvider { provider } => "Unsupported LLM provider: "@ + provider,
        ConfigErrorV::MissingGeminiConfig => "Gemini configuration not found for provider 'gemini'"@,
        ConfigErrorV::ApiKeyNotConfigured { provider } => "API key is not configured for provider: "@
            + provider,
    }
}

impl ConfigError {
    /// The failure rendered as text, as `spec_config_message` describes.
    pub fn message(&self) -> (r: String)
        ensures
            r@ == spec_config_message(self@),
    {
        match self {
            ConfigError::UnsupportedProvider { provider } => {
                let mut s = String::from_str("Unsupported LLM provider: ");
                s.append(provider.as_str());
                s
            },
            ConfigError::MissingGeminiConfig => {
                String::from_str("Gemini configuration not found for provider 'gemini'")
            },
            ConfigError::ApiKeyNotConfigured { provider } => {
                let mut s = String::from_str("API key is not configured for provider: ");
                s.append(provider.as_str());
                s
            },
        }
    }
}

/// Ghost model of a constructed client.
#[verifier::ext_equal]
pub struct LlmClientV {
    pub api_key: Seq<char>,
    pub config: ConfigV,
    pub verbose: bool,
}

/// A validated client: it holds the configuration and the checked
/// credential for its lifetime.
#[derive(Debug)]
pub struct LlmClient {
    provider: LlmProvider,
    api_key: String,
    config: Config,
    verbose: bool,
}

impl View for LlmClient {
    type V = LlmClientV;

    closed spec fn view(&self) -> LlmClientV {
        LlmClientV { api_key: self.api_key@, config: self.config@, verbose: self.verbose }
    }
}

/// The request endpoint for a model, the credential passed as a query
/// parameter.
pub open spec fn spec_url(model: Seq<char>, key: Seq<char>) -> Seq<char> {
    "https://generativelanguage.googleapis.com/v1beta/models/"@ + model + ":generateContent?key="@
        + key
}

impl LlmClient {
    #[verifier::type_invariant]
    closed spec fn wf(self) -> bool {
        &&& self.config.gemini is Some
        &&& self.api_key@ == self.config.gemini->0.key@
        &&& self.api_key@.len() > 0
        &&& self.api_key@ != "YOUR_GEMINI_API_KEY"@
    }

    /// Validates the configuration and builds a client.  Construction fails
    /// exactly when the provider is not `gemini`, its configuration block is
    /// absent, or the credential is empty or the documented placeholder.
    pub fn new(config: &Config, verbose: bool) -> (r: Result<LlmClient, ConfigError>)
        ensures
            (match r {
                Result::Ok(c) => config@.provider == "gemini"@ && config@.gemini is Some && (
                config@.gemini->0.key.len() > 0) && config@.gemini->0.key
                    != "YOUR_GEMINI_API_KEY"@ && c@.config == config@ && c@.api_key
                    == config@.gemini->0.key && c@.verbose == verbose,
                Result::Err(e) => (match e@ {
                    ConfigErrorV::UnsupportedProvider { provider } => provider == config@.provider
                        && config@.provider != "gemini"@,
                    ConfigErrorV::MissingGeminiConfig => config@.provider == "gemini"@
                        && config@.gemini is None,
                    ConfigErrorV::ApiKeyNotConfigured { provider } => provider == "gemini"@
                        && config@.provider == "gemini"@ && config@.gemini is Some && (
                    config@.gemini->0.key.len() == 0 || config@.gemini->0.key
                        == "YOUR_GEMINI_API_KEY"@),
                }),
            }),
    {
        if !eq_str(config.provider.as_str(), "gemini") {
            return Err(ConfigError::UnsupportedProvider { provider: config.provider.clone() });
        }
        let gem = match &config.gemini {
            Some(g) => g,
            None => {
                return Err(ConfigError::MissingGeminiConfig);
            },
        };
        let api_key = gem.key.clone();
        if api_key.as_str().is_empty() || eq_str(api_key.as_str(), "YOUR_GEMINI_API_KEY") {
            let provider_enum = LlmProvider::Gemini;
            return Err(
                ConfigError::ApiKeyNotConfigured {
                    provider: String::from_str(provider_enum.as_str()),
                },
            );
        }
        Ok(
            LlmClient {
                provider: LlmProvider::Gemini,
                api_key,
                config: config.clone(),
                verbose,
            },
        )
    }

    /// Whether the observability hook is on: the caller then prints the
    /// outgoing request before sending it.
    pub fn verbose(&self) -> (r: bool)
        ensures
            r == self@.verbose,
    {
        self.verbose
    }

    /// The endpoint for the configured model, credential included.
    pub fn request_url(&self) -> (r: String)
        ensures
            self@.config.gemini is Some,
            r@ == spec_url(self@.config.gemini->0.model, self@.config.gemini->0.key),
    {
        proof {
            use_type_invariant(self);
        }
        let gem = match &self.config.gemini {
            Some(g) => g,
            None => {
                proof {
                    assert(false);
                }
                return String::new();
            },
        };
        let mut url = String::from_str(
            "https://generativelanguage.googleapis.com/v1beta/models/",
        );
        url.append(gem.model.as_str());
        url.append(":generateContent?key=");
        url.append(self.api_key.as_str());
        url
    }

    /// The serialized request body for one prompt: the built envelope,
    /// encoded and rendered as JSON text.
    pub fn request_body(&self, prompt: &str) -> (r: String)
        ensures
            self@.config.gemini is Some,
            r@ == text_of(enc_request(build_spec(self@.config.gemini->0, prompt@))),
    {
        proof {
            use_type_invariant(self);
        }
        let gem = match &self.config.gemini {
            Some(g) => g,
            None => {
                proof {
                    assert(false);
                }
                return String::new();
            },
        };
        let env = build_request(gem, prompt);
        let j = encode_request(&env);
        emit(&j)
    }
}

} // verus!
