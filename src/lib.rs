//! A simulator of a streaming chat-completion endpoint: canned question and
//! answer records are selected, rendered and streamed back in the wire shape
//! of a token-streaming completion API, behind bounded admission and a
//! time-limited cache of the candidate set.

use vstd::prelude::*;

pub mod admission;
pub mod cache;
pub mod config;
pub mod error;
pub mod response;
pub mod stream;
pub mod text;
pub mod wire;

verus! {

} // verus!
