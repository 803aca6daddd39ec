//! Orchestration engine for a function-calling chat client: a streaming
//! reply assembler, a provider/function registry with merge-patch
//! specification overrides, an approval-gated executor, a model selector,
//! and the conversation loop that ties them together.
use vstd::prelude::*;

pub mod json;
pub mod jsontext;
pub mod message;
pub mod models;
pub mod registry;
pub mod stream;
pub mod text;
pub mod turn;
