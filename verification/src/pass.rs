//! The pass expression of a step: compiled once, asked once per response.

use vstd::prelude::*;
use vstd::string::*;
use crate::expr::EvaluationError;
use crate::expr::Expr;
use crate::expr::Formula;
use crate::expr::truth_of;
use crate::parse::ExpressionError;
use crate::parse::parse;
use crate::parse::parse_expr;

verus! {

/// A compiled predicate over one text.
#[derive(Debug, Clone, PartialEq, Eq)]
pub struct PassExpression {
    root: Expr,
}

impl View for PassExpression {
    type V = Formula;

    closed spec fn view(&self) -> Formula {
        self.root@
    }
}

/// The characters of a string.
pub fn chars_of(text: &str) -> (chars: Vec<char>)
    ensures
        chars@ == text@,
{
    let mut chars: Vec<char> = Vec::new();
    for c in it: text.chars()
        invariant
            it.seq() == text@,
            chars@ == it.seq().take(it.index() as int),
    {
        chars.push(c);
    }
    chars
}

impl PassExpression {
    /// Compiles the source of an expression, or says where it is none.
    pub fn compile(source: &str) -> (r: Result<PassExpression, ExpressionError>)
        ensures
            match r {
                Ok(compiled) => parse(source@) == Ok::<Formula, ExpressionError>(compiled@),
                Err(error) => parse(source@) == Err::<Formula, ExpressionError>(error),
            },
    {
        let chars = chars_of(source);
        match parse_expr(chars.as_slice()) {
            Ok(root) => Ok(PassExpression { root }),
            Err(error) => Err(error),
        }
    }

    /// What the expression says of a text. An expression that stands for a text
    /// says nothing: that is `NotBoolean`.
    pub fn evaluate(&self, input: &str) -> (r: Result<bool, EvaluationError>)
        ensures
            r == truth_of(self@, input@),
    {
        let chars = chars_of(input);
        self.root.truth(chars.as_slice())
    }
}

} // verus!
