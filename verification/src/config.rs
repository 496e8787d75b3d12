//! The configuration of the chat-completion backend.

use vstd::prelude::*;

verus! {

/// Which model to call, where, and with which key.
#[derive(Debug, PartialEq, Clone)]
pub struct OpenAIConfig {
    pub model: String,
    pub endpoint: String,
    pub api_key: String,
}

/// The model that is called where none is named.
pub open spec fn default_model() -> Seq<char> {
    "gpt-4o"@
}

/// The endpoint that is called where none is named.
pub open spec fn default_endpoint() -> Seq<char> {
    "https://api.openai.com/v1"@
}

impl OpenAIConfig {
    /// The default configuration: the default model and endpoint, and no key.
    pub fn new() -> (config: Self)
        ensures
            config.model@ == default_model(),
            config.endpoint@ == default_endpoint(),
            config.api_key@ == Seq::<char>::empty(),
    {
        Self {
            model: "gpt-4o".to_owned(),
            endpoint: "https://api.openai.com/v1".to_owned(),
            api_key: String::new(),
        }
    }
}

impl Default for OpenAIConfig {
    fn default() -> (config: Self)
        ensures
            config.model@ == default_model(),
            config.endpoint@ == default_endpoint(),
            config.api_key@ == Seq::<char>::empty(),
    {
        Self::new()
    }
}

} // verus!
