//! Execution core of a workflow language that chains calls to
//! large-language-model providers: the conversational-completion block, with
//! its construction, content-addressed hashing, request assembly, and
//! cached/streaming dispatch protocol.

pub mod chat;
pub mod engine;
pub mod errors;
pub mod hash;
pub mod json;
pub mod llm;
pub mod num;
pub mod text;

use vstd::prelude::*;

verus! {

/// Front end for the workflow language's surface grammar. Block construction
/// in this crate consumes the key/value pairs that it produces.
pub struct DustParser;

} // verus!
