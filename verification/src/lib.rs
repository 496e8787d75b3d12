//! One prompt in, one text out, one verdict.
//!
//! A [`step::Step`] makes a request, has a backend answer it, and decides whether the
//! answer passes. The backends speak two wire formats: a line-delimited event stream
//! ([`sse`], [`record`], [`openai`]) and a stream of framed events ([`bedrock`]). Both
//! are normalised to the events of [`event`], which [`invoke`] gathers into a turn.
//! [`transcript`] states what a whole stream yields and proves that the chunking of
//! it does not matter. [`parse`], [`expr`], [`render`] and [`pass`] are the pass
//! expressions.

pub mod args;
pub mod bedrock;
pub mod config;
pub mod event;
pub mod expr;
pub mod invoke;
pub mod json;
pub mod openai;
pub mod parse;
pub mod pass;
pub mod record;
pub mod render;
pub mod sse;
pub mod step;
pub mod transcript;

pub use crate::bedrock::invoke_bedrock;
pub use crate::invoke::Invoker;
pub use crate::openai::invoke_openai;
pub use crate::openai::ChatCompletionMessage;
pub use crate::openai::ChatCompletionMessageRole;
