//! The builder of a step.

use vstd::prelude::*;
use crate::args::Schema;
use crate::config::OpenAIConfig;
use crate::config::default_endpoint;
use crate::config::default_model;
use crate::expr::Formula;
use crate::invoke::texts;
use crate::parse::ExpressionError;
use crate::parse::parse;
use crate::pass::PassExpression;
use crate::step::Step;
use crate::step::StepModel;

verus! {

/// Gathers the configuration of a step, one setting at a time.
#[derive(Debug, PartialEq, Clone)]
pub struct Builder {
    config: OpenAIConfig,
    schema: Schema,
    system: Vec<String>,
    pass: Option<PassExpression>,
}

/// The step that a fresh builder builds: the default model and endpoint, no key, the
/// chat-completion schema, no system prompt, no pass expression.
pub open spec fn default_step() -> StepModel {
    StepModel {
        model: default_model(),
        endpoint: default_endpoint(),
        api_key: Seq::empty(),
        schema: Schema::OpenAI,
        system: Seq::empty(),
        pass: None,
    }
}

impl View for Builder {
    type V = StepModel;

    /// The step that the builder would build.
    closed spec fn view(&self) -> StepModel {
        StepModel {
            model: self.config.model@,
            endpoint: self.config.endpoint@,
            api_key: self.config.api_key@,
            schema: self.schema,
            system: texts(self.system@),
            pass: match self.pass {
                Some(expression) => Some(expression@),
                None => None,
            },
        }
    }
}

impl Default for Builder {
    fn default() -> (builder: Self)
        ensures
            builder@ == default_step(),
    {
        let builder = Builder {
            config: OpenAIConfig::new(),
            schema: Schema::OpenAI,
            system: Vec::new(),
            pass: None,
        };
        assert(texts(builder.system@) =~= Seq::empty());
        builder
    }
}

impl Builder {
    /// A builder with the default configuration.
    pub fn new() -> (builder: Self)
        ensures
            builder@ == default_step(),
    {
        Self::default()
    }

    /// Sets the model.
    pub fn model(self, model: String) -> (builder: Self)
        ensures
            builder@ == (StepModel { model: model@, ..self@ }),
    {
        let mut builder = self;
        builder.config.model = model;
        builder
    }

    /// Sets the endpoint.
    pub fn endpoint(self, endpoint: String) -> (builder: Self)
        ensures
            builder@ == (StepModel { endpoint: endpoint@, ..self@ }),
    {
        let mut builder = self;
        builder.config.endpoint = endpoint;
        builder
    }

    /// Sets the key.
    pub fn api_key(self, api_key: String) -> (builder: Self)
        ensures
            builder@ == (StepModel { api_key: api_key@, ..self@ }),
    {
        let mut builder = self;
        builder.config.api_key = api_key;
        builder
    }

    /// Sets the provider.
    pub fn schema(self, schema: Schema) -> (builder: Self)
        ensures
            builder@ == (StepModel { schema, ..self@ }),
    {
        let mut builder = self;
        builder.schema = schema;
        builder
    }

    /// Sets the system prompts, which are sent before the user's turn in this order.
    pub fn system(self, prompts: Vec<String>) -> (builder: Self)
        ensures
            builder@ == (StepModel { system: texts(prompts@), ..self@ }),
    {
        let mut builder = self;
        builder.system = prompts;
        builder
    }

    /// Sets the pass expression from its source. An empty source is no expression.
    /// A source that is no expression is refused here, before any request is made.
    pub fn pass_expression(self, source: &str) -> (r: Result<Self, ExpressionError>)
        ensures
            match r {
                Ok(builder) => if source@.len() == 0 {
                    builder@ == (StepModel { pass: None, ..self@ })
                } else {
                    parse(source@) matches Ok(formula) && builder@ == (StepModel {
                        pass: Some(formula),
                        ..self@
                    })
                },
                Err(error) => source@.len() > 0 && parse(source@) == Err::<
                    Formula,
                    ExpressionError,
                >(error),
            },
    {
        let mut builder = self;
        if source.is_empty() {
            builder.pass = None;
            Ok(builder)
        } else {
            match PassExpression::compile(source) {
                Ok(expression) => {
                    builder.pass = Some(expression);
                    Ok(builder)
                },
                Err(error) => Err(error),
            }
        }
    }

    /// The step with the settings gathered.
    pub fn build(self) -> (step: Step)
        ensures
            step@ == self@,
    {
        Step::assemble(self.config, self.schema, self.system, self.pass)
    }
}

} // verus!
