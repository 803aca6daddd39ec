//! The model selector: the available model tiers in increasing price
//! order, and the choice of the cheapest tier whose remaining completion
//! budget for the conversation clears a fixed floor. Token counting is
//! delegated to tiktoken behind a trusted wrapper.
use vstd::prelude::*;

use crate::message::Message;
use crate::message::MessageV;
use crate::message::msgs_view;

verus! {

/// The least completion budget a model tier must leave for the reply.
pub const MIN_COMPLETION_TOKENS: usize = 512;

/// How many model tiers there are.
pub const MODEL_COUNT: usize = 4;

/// The name of tier `i`; tiers are ordered by increasing price.
pub open spec fn spec_model_name(i: int) -> Seq<char> {
    if i == 0 {
        "gpt-3.5-turbo"@
    } else if i == 1 {
        "gpt-3.5-turbo-16k"@
    } else if i == 2 {
        "gpt-4"@
    } else {
        "gpt-4-32k"@
    }
}

/// The name of tier `i`.
pub fn model_name(i: usize) -> (r: &'static str)
    requires
        i < MODEL_COUNT,
    ensures
        r@ == spec_model_name(i as int),
{
    if i == 0 {
        "gpt-3.5-turbo"
    } else if i == 1 {
        "gpt-3.5-turbo-16k"
    } else if i == 2 {
        "gpt-4"
    } else {
        "gpt-4-32k"
    }
}

/// The completion-token budget that token counting reports for a model and
/// a conversation: the model's context size less the prompt's tokens, or
/// nothing for a model the tokenizer does not know. The count depends on
/// the model name and the messages alone.
pub uninterp spec fn chat_budget(model: Seq<char>, messages: Seq<MessageV>) -> Option<usize>;

/// Relies on `tiktoken_rs::get_chat_completion_max_tokens`: counts the
/// prompt's tokens with the model's tokenizer and subtracts them from the
/// model's context size.
#[verifier::external_body]
fn remaining_completion_tokens(model: &str, messages: &Vec<Message>) -> (r: Option<usize>)
    ensures
        r == chat_budget(model@, msgs_view(messages@)),
{
    let msgs: Vec<tiktoken_rs::ChatCompletionRequestMessage> = messages
        .iter()
        .map(|m| tiktoken_rs::ChatCompletionRequestMessage {
            role: m.wire_role().to_string(),
            content: Some(m.wire_content().to_string()),
            name: m.wire_name().map(str::to_string),
            function_call: m.wire_call().map(
                |c| tiktoken_rs::FunctionCall { name: c.0.to_string(), arguments: c.1.to_string() },
            ),
            ..Default::default()
        })
        .collect();
    tiktoken_rs::get_chat_completion_max_tokens(model, &msgs).ok()
}

/// Whether tier `i` leaves at least the completion floor for the
/// conversation; a tier whose budget cannot be computed never fits.
pub open spec fn spec_model_fits(messages: Seq<MessageV>, i: int) -> bool {
    match chat_budget(spec_model_name(i), messages) {
        Some(b) => b >= MIN_COMPLETION_TOKENS,
        None => false,
    }
}

/// Whether the given model leaves at least the completion floor for the
/// conversation; nothing when the budget cannot be computed.
pub fn messages_fit_model(model: &str, messages: &Vec<Message>) -> (r: Option<bool>)
    ensures
        (match chat_budget(model@, msgs_view(messages@)) {
            Some(b) => r == Some(b >= MIN_COMPLETION_TOKENS),
            None => r is None,
        }),
{
    match remaining_completion_tokens(model, messages) {
        Some(budget) => Some(budget >= MIN_COMPLETION_TOKENS),
        None => None,
    }
}

/// The cheapest tier that fits the conversation, if any.
pub open spec fn spec_chosen_model(messages: Seq<MessageV>) -> Option<Seq<char>> {
    if spec_model_fits(messages, 0) {
        Some(spec_model_name(0))
    } else if spec_model_fits(messages, 1) {
        Some(spec_model_name(1))
    } else if spec_model_fits(messages, 2) {
        Some(spec_model_name(2))
    } else if spec_model_fits(messages, 3) {
        Some(spec_model_name(3))
    } else {
        None
    }
}

/// Find the cheapest model tier with a large enough remaining completion
/// budget for the conversation; nothing fits only when every tier falls
/// short, which is fatal for the turn.
pub fn choose_model(messages: &Vec<Message>) -> (r: Option<&'static str>)
    ensures
        (match r {
            Some(m) => spec_chosen_model(msgs_view(messages@)) == Some(m@),
            None => spec_chosen_model(msgs_view(messages@)) is None,
        }),
{
    let mut i: usize = 0;
    while i < MODEL_COUNT
        invariant
            0 <= i <= MODEL_COUNT,
            forall|k: int| 0 <= k < i ==> !spec_model_fits(msgs_view(messages@), k),
        decreases MODEL_COUNT - i,
    {
        let name = model_name(i);
        if let Some(true) = messages_fit_model(name, messages) {
            return Some(name);
        }
        i = i + 1;
    }
    None
}

} // verus!
