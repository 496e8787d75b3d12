//! The step: one prompt in, one text out, one verdict.

pub mod builder;

use vstd::prelude::*;
use crate::args::Schema;
use crate::config::OpenAIConfig;
use crate::expr::EvaluationError;
use crate::expr::Formula;
use crate::expr::truth_of;
use crate::invoke::InvocationError;
use crate::invoke::InvocationRequest;
use crate::invoke::InvocationResult;
use crate::invoke::Invoker;
use crate::invoke::texts;
use crate::pass::PassExpression;
use crate::step::builder::Builder;
use crate::step::builder::default_step;

verus! {

/// What a step gives: the text of the turn, and whether it passes.
#[derive(Debug, Clone, PartialEq, Eq)]
pub struct Output {
    pub content: String,
    pub pass: bool,
}

/// Why a step gave no output. The error of the invocation or of the evaluation is
/// handed on as it came.
#[derive(Debug, Clone, PartialEq, Eq)]
pub enum StepError {
    Invocation(InvocationError),
    Evaluation(EvaluationError),
}

/// A step as a mathematical value.
pub struct StepModel {
    pub model: Seq<char>,
    pub endpoint: Seq<char>,
    pub api_key: Seq<char>,
    pub schema: Schema,
    pub system: Seq<Seq<char>>,
    /// The pass expression, where one is configured.
    pub pass: Option<Formula>,
}

/// What a step makes of a turn with the given text: it passes where no expression is
/// configured, else as the expression says of the text.
pub open spec fn verdict(pass: Option<Formula>, content: Seq<char>) -> Result<
    bool,
    EvaluationError,
> {
    match pass {
        None => Ok(true),
        Some(formula) => truth_of(formula, content),
    }
}

/// Whether the step's result is what the step makes of the invocation's outcome.
pub open spec fn concludes(
    pass: Option<Formula>,
    outcome: Result<InvocationResult, InvocationError>,
    result: Result<Output, StepError>,
) -> bool {
    match outcome {
        Err(error) => result == Err::<Output, StepError>(StepError::Invocation(error)),
        Ok(turn) => match verdict(pass, turn.content@) {
            Err(error) => result == Err::<Output, StepError>(StepError::Evaluation(error)),
            Ok(pass) => result == Ok::<Output, StepError>(Output { content: turn.content, pass }),
        },
    }
}

/// Whether the request is the one that the step makes for a text: its model, its
/// system prompts in order, and the text as the user's turn.
pub open spec fn is_request(step: StepModel, text: String, request: InvocationRequest) -> bool {
    &&& request.model@ == step.model
    &&& texts(request.system_prompts@) == step.system
    &&& request.user_text == text
}

/// A configured step.
#[derive(Debug, Clone)]
pub struct Step {
    config: OpenAIConfig,
    schema: Schema,
    system: Vec<String>,
    pass: Option<PassExpression>,
}

impl View for Step {
    type V = StepModel;

    closed spec fn view(&self) -> StepModel {
        StepModel {
            model: self.config.model@,
            endpoint: self.config.endpoint@,
            api_key: self.config.api_key@,
            schema: self.schema,
            system: texts(self.system@),
            pass: match self.pass {
                Some(expression) => Some(expression@),
                None => None,
            },
        }
    }
}

/// A copy of each string.
pub fn clone_strings(strings: &Vec<String>) -> (copy: Vec<String>)
    ensures
        texts(copy@) == texts(strings@),
{
    let mut copy: Vec<String> = Vec::new();
    let mut i: usize = 0;
    while i < strings.len()
        invariant
            i <= strings.len(),
            copy@.len() == i,
            forall|k: int| 0 <= k < i ==> (#[trigger] copy@[k])@ == strings@[k]@,
        decreases strings.len() - i,
    {
        copy.push(strings[i].clone());
        i += 1;
    }
    copy
}

impl Step {
    /// A builder with the default configuration.
    pub fn builder() -> (builder: Builder)
        ensures
            builder@ == default_step(),
    {
        Builder::new()
    }

    pub(crate) fn assemble(
        config: OpenAIConfig,
        schema: Schema,
        system: Vec<String>,
        pass: Option<PassExpression>,
    ) -> (step: Step)
        ensures
            step@ == (StepModel {
                model: config.model@,
                endpoint: config.endpoint@,
                api_key: config.api_key@,
                schema,
                system: texts(system@),
                pass: match pass {
                    Some(expression) => Some(expression@),
                    None => None,
                },
            }),
    {
        Step { config, schema, system, pass }
    }

    /// Which provider the step calls. It is chosen when the step is built.
    pub fn schema(&self) -> (schema: Schema)
        ensures
            schema == self@.schema,
    {
        self.schema
    }

    /// The model that the step calls.
    pub fn model(&self) -> (model: &String)
        ensures
            model@ == self@.model,
    {
        &self.config.model
    }

    /// The endpoint that the step calls.
    pub fn endpoint(&self) -> (endpoint: &String)
        ensures
            endpoint@ == self@.endpoint,
    {
        &self.config.endpoint
    }

    /// The key that the step calls with.
    pub fn api_key(&self) -> (api_key: &String)
        ensures
            api_key@ == self@.api_key,
    {
        &self.config.api_key
    }

    /// The request that the step makes for a text: its model, its system prompts in
    /// order, and the text as the user's turn.
    pub fn request(&self, text: String) -> (request: InvocationRequest)
        ensures
            is_request(self@, text, request),
    {
        InvocationRequest {
            model: self.config.model.clone(),
            system_prompts: clone_strings(&self.system),
            user_text: text,
        }
    }

    /// What the step makes of the outcome of its invocation. An error is handed on.
    /// A complete turn passes where no expression is configured, else as the
    /// expression says of its text; an expression that says nothing of it is an error.
    pub fn conclude(&self, outcome: Result<InvocationResult, InvocationError>) -> (r: Result<
        Output,
        StepError,
    >)
        ensures
            concludes(self@.pass, outcome, r),
    {
        match outcome {
            Err(error) => Err(StepError::Invocation(error)),
            Ok(turn) => match &self.pass {
                None => Ok(Output { content: turn.content, pass: true }),
                Some(expression) => match expression.evaluate(turn.content.as_str()) {
                    Ok(pass) => Ok(Output { content: turn.content, pass }),
                    Err(error) => Err(StepError::Evaluation(error)),
                },
            },
        }
    }

    /// Runs the step on a text: makes the request, has the backend answer it, and
    /// concludes. The result is what the step makes of an outcome that the backend
    /// gave for exactly that request.
    pub fn exec<I: Invoker>(&self, invoker: &I, text: String) -> (r: Result<Output, StepError>)
        ensures
            exists|request: InvocationRequest, outcome: Result<InvocationResult, InvocationError>|
                {
                    &&& is_request(self@, text, request)
                    &&& #[trigger] call_ensures(I::invoke, (invoker, &request), outcome)
                    &&& concludes(self@.pass, outcome, r)
                },
    {
        let request = self.request(text);
        let outcome = invoker.invoke(&request);
        self.conclude(outcome)
    }
}

/// A step without a pass expression passes every complete turn, with its text
/// unchanged.
pub proof fn step_without_expression_passes(turn: InvocationResult, r: Result<Output, StepError>)
    requires
        concludes(None, Ok(turn), r),
    ensures
        r == Ok::<Output, StepError>(Output { content: turn.content, pass: true }),
{
}

/// A step never makes an output of a failed invocation: the error is handed on as it
/// came, whatever the pass expression.
pub proof fn step_hands_errors_on(
    pass: Option<Formula>,
    error: InvocationError,
    r: Result<Output, StepError>,
)
    requires
        concludes(pass, Err(error), r),
    ensures
        r == Err::<Output, StepError>(StepError::Invocation(error)),
{
}

/// The exit code of a run: 0 where the output passes, 1 where it does not, 2 where
/// the step failed.
pub fn exit_code(result: &Result<Output, StepError>) -> (code: u8)
    ensures
        code == (match result {
            Ok(output) => if output.pass {
                0u8
            } else {
                1u8
            },
            Err(_) => 2u8,
        }),
{
    match result {
        Ok(output) => if output.pass {
            0
        } else {
            1
        },
        Err(_) => 2,
    }
}

} // verus!
