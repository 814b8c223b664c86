use vstd::prelude::*;
use crate::text::append_str;

verus! {

/// serde_json's `Value`, carried opaquely in the `logprobs` field of a choice.
#[verifier::external_type_specification]
#[verifier::external_body]
pub struct ExJsonValue(serde_json::Value);

/// The fixed header values of every chunk of a stream.
pub const OBJECT_TAG: &'static str = "chat.completion.chunk";
pub const MODEL_TAG: &'static str = "gpt-4o-2024-08-06";
pub const FINGERPRINT: &'static str = "fp_d28bcae782";
pub const CREATED: u64 = 1735278816;
/// A chunk identifier is this prefix followed by `ID_SUFFIX_LEN` random letters or digits.
pub const ID_PREFIX: &'static str = "chatcmpl-Ai";
pub const ID_SUFFIX_LEN: usize = 30;

/// Placeholder token counts of the terminal chunk; not derived from the text.
pub const PROMPT_TOKENS: u32 = 20;
pub const COMPLETION_TOKENS: u32 = 30;

/// One unit of the wire stream: a content delta, or the terminal usage summary.
pub struct Chunk {
    pub id: String,
    pub object: String,
    pub created: u64,
    pub model: String,
    pub system_fingerprint: String,
    pub choices: Vec<Choice>,
    pub usage: Option<Usage>,
}

pub struct Choice {
    pub index: u32,
    pub delta: Delta,
    pub logprobs: Option<serde_json::Value>,
    pub finish_reason: Option<String>,
}

pub struct Delta {
    pub content: String,
}

pub struct Usage {
    pub prompt_tokens: u32,
    pub completion_tokens: u32,
    pub total_tokens: u32,
    pub prompt_tokens_details: PromptTokensDetails,
    pub completion_tokens_details: CompletionTokensDetails,
}

pub struct PromptTokensDetails {
    pub cached_tokens: u32,
    pub audio_tokens: u32,
}

pub struct CompletionTokensDetails {
    pub reasoning_tokens: u32,
    pub audio_tokens: u32,
    pub accepted_prediction_tokens: u32,
    pub rejected_prediction_tokens: u32,
}

/// The header fields every chunk of a stream carries.
pub open spec fn has_stream_header(c: Chunk, id: Seq<char>) -> bool {
    &&& c.id@ == id
    &&& c.object@ == OBJECT_TAG@
    &&& c.created == CREATED
    &&& c.model@ == MODEL_TAG@
    &&& c.system_fingerprint@ == FINGERPRINT@
}

/// The usage summary of the terminal chunk.
pub fn placeholder_usage() -> (u: Usage)
    ensures
        u.prompt_tokens == PROMPT_TOKENS,
        u.completion_tokens == COMPLETION_TOKENS,
        u.total_tokens == PROMPT_TOKENS + COMPLETION_TOKENS,
        u.total_tokens > 0,
{
    Usage {
        prompt_tokens: PROMPT_TOKENS,
        completion_tokens: COMPLETION_TOKENS,
        total_tokens: PROMPT_TOKENS + COMPLETION_TOKENS,
        prompt_tokens_details: PromptTokensDetails { cached_tokens: 0, audio_tokens: 0 },
        completion_tokens_details: CompletionTokensDetails {
            reasoning_tokens: 0,
            audio_tokens: 0,
            accepted_prediction_tokens: 0,
            rejected_prediction_tokens: 0,
        },
    }
}

/// A content chunk: one choice whose delta is `content`, no finish reason, no usage.
pub fn content_chunk(id: String, content: String) -> (c: Chunk)
    ensures
        has_stream_header(c, id@),
        c.choices@.len() == 1,
        c.choices@[0].index == 0,
        c.choices@[0].delta.content@ == content@,
        c.choices@[0].logprobs is None,
        c.choices@[0].finish_reason is None,
        c.usage is None,
{
    let choice = Choice {
        index: 0,
        delta: Delta { content },
        logprobs: None,
        finish_reason: None,
    };
    let mut choices: Vec<Choice> = Vec::new();
    choices.push(choice);
    Chunk {
        id,
        object: OBJECT_TAG.to_owned(),
        created: CREATED,
        model: MODEL_TAG.to_owned(),
        system_fingerprint: FINGERPRINT.to_owned(),
        choices,
        usage: None,
    }
}

/// The terminal chunk: no choices, and the usage summary.
pub fn usage_chunk(id: String) -> (c: Chunk)
    ensures
        has_stream_header(c, id@),
        c.choices@.len() == 0,
        c.usage matches Some(u) && u.total_tokens == PROMPT_TOKENS + COMPLETION_TOKENS
            && u.total_tokens > 0,
{
    Chunk {
        id,
        object: OBJECT_TAG.to_owned(),
        created: CREATED,
        model: MODEL_TAG.to_owned(),
        system_fingerprint: FINGERPRINT.to_owned(),
        choices: Vec::new(),
        usage: Some(placeholder_usage()),
    }
}

pub open spec fn framed(payload: Seq<char>) -> Seq<char> {
    "data: "@ + payload + "\n\n"@
}

/// Wraps one JSON payload as an event of the stream: `data: <json>` and a blank line.
pub fn frame_event(payload: &str) -> (r: String)
    ensures
        r@ == framed(payload@),
{
    let mut r = "data: ".to_owned();
    append_str(&mut r, payload);
    append_str(&mut r, "\n\n");
    r
}

/// The literal event that ends every complete stream.
pub fn done_event() -> (r: String)
    ensures
        r@ == framed("[DONE]"@),
{
    frame_event("[DONE]")
}

pub open spec fn is_alphanumeric(c: char) -> bool {
    ('A' <= c <= 'Z') || ('a' <= c <= 'z') || ('0' <= c <= '9')
}

/// Relies on rand's `Alphanumeric` distribution sampled through `thread_rng`:
/// `n` characters, each an ASCII letter or digit.
#[verifier::external_body]
fn random_alphanumeric(n: usize) -> (r: String)
    ensures
        r@.len() == n,
        forall|i: int| 0 <= i < n ==> is_alphanumeric(#[trigger] r@[i]),
{
    rand::Rng::sample_iter(rand::thread_rng(), &rand::distributions::Alphanumeric)
        .take(n)
        .map(char::from)
        .collect()
}

/// A fresh chunk identifier: the fixed prefix and thirty random letters or digits.
pub fn generate_id() -> (r: String)
    ensures
        r@.len() == ID_PREFIX@.len() + ID_SUFFIX_LEN,
        r@.subrange(0, ID_PREFIX@.len() as int) == ID_PREFIX@,
        forall|i: int|
            ID_PREFIX@.len() <= i < r@.len() ==> is_alphanumeric(#[trigger] r@[i]),
{
    let suffix = random_alphanumeric(ID_SUFFIX_LEN);
    let mut r = ID_PREFIX.to_owned();
    append_str(&mut r, suffix.as_str());
    assert(r@.subrange(0, ID_PREFIX@.len() as int) =~= ID_PREFIX@);
    r
}

} // verus!
