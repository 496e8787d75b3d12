//! What the command line says.

use vstd::prelude::*;

verus! {

/// Which wire format a backend speaks.
#[derive(Debug, Clone, Copy, PartialEq, Eq, Structural)]
pub enum Schema {
    OpenAI,
    Bedrock,
}

impl Default for Schema {
    fn default() -> (schema: Self)
        ensures
            schema == Schema::OpenAI,
    {
        Schema::OpenAI
    }
}

/// The arguments of one run.
#[derive(Debug, Clone)]
pub struct Args {
    /// The model to use.
    pub model: String,
    /// The API schema to use.
    pub schema: Schema,
    /// Optional system instructions.
    pub system: Vec<String>,
    /// The prompt to use. Without one, or with `-`, the prompt is read from the
    /// standard input.
    pub prompt: Option<String>,
}

/// Whether the prompt is given on the command line: it is there, and it is not `-`.
pub open spec fn is_inline(prompt: Option<String>) -> bool {
    prompt matches Some(text) && text@ != "-"@
}

impl Args {
    /// The prompt, where it is given on the command line; `None` where it is to be
    /// read from the standard input.
    pub fn inline_prompt(&self) -> (r: Option<&String>)
        ensures
            match r {
                Some(text) => is_inline(self.prompt) && self.prompt == Some(*text),
                None => !is_inline(self.prompt),
            },
    {
        match &self.prompt {
            Some(text) => {
                let dash = "-".to_owned();
                if *text == dash {
                    None
                } else {
                    Some(text)
                }
            },
            None => None,
        }
    }
}

} // verus!
