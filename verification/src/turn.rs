//! The conversation loop's state: an append-only conversation owned for
//! one user turn, and the requests built from it. The loop itself —
//! sending requests, streaming fragments, running approved commands — is
//! driven from outside; every decision it takes comes from here.
use vstd::prelude::*;

use crate::message::Message;
use crate::message::MessageV;
use crate::message::clone_messages;
use crate::message::make_function_message;
use crate::message::message_of_reply;
use crate::message::msgs_view;
use crate::message::reply_to_message;
use crate::message::spec_role;
use crate::models::choose_model;
use crate::models::messages_fit_model;
use crate::models::model_name;
use crate::models::spec_chosen_model;
use crate::models::spec_model_fits;
use crate::registry::FunctionResponse;
use crate::registry::FunctionSpec;
use crate::registry::FunctionSpecV;
use crate::registry::SpecParseError;
use crate::registry::spec_response_text;
use crate::registry::specs_view;
use crate::stream::Reply;
use crate::stream::Role;
use crate::text::spec_trim;
use crate::text::trim_str;

verus! {

/// Why a turn could not start or continue.
#[derive(Clone, Copy, Debug, PartialEq, Eq, Structural)]
pub enum TurnError {
    /// The user's utterance alone does not fit the cheapest model tier.
    InputDoesNotFit,
    /// No model tier leaves enough completion budget for the conversation.
    NoModelFits,
}

/// One outgoing request: a fixed, deterministic temperature is applied at
/// the wire; the functions are attached only when the registry offered
/// any.
#[derive(Debug)]
pub struct Request {
    pub model: String,
    pub messages: Vec<Message>,
    pub functions: Option<Vec<FunctionSpec>>,
}

/// The mathematical shape of a [`Request`].
pub ghost struct RequestV {
    pub model: Seq<char>,
    pub messages: Seq<MessageV>,
    pub functions: Option<Seq<FunctionSpecV>>,
}

impl View for Request {
    type V = RequestV;

    open spec fn view(&self) -> RequestV {
        RequestV {
            model: self.model@,
            messages: msgs_view(self.messages@),
            functions: match &self.functions {
                Some(fs) => Some(specs_view(fs@)),
                None => None,
            },
        }
    }
}

/// Collect per-provider specification results into the one set a request
/// may attach: every specification, in registry order, or the first
/// failure. The registry hands out one result per provider; it is request
/// construction that offers either every function or none, so here one
/// provider's failure fails the whole set.
pub fn collect_specifications(results: &Vec<Result<(FunctionSpec, bool), SpecParseError>>) -> (r:
    Result<Vec<FunctionSpec>, SpecParseError>)
    ensures
        (match r {
            Ok(specs) => {
                &&& specs@.len() == results@.len()
                &&& forall|i: int|
                    0 <= i < results@.len() ==> ((#[trigger] results@[i]) matches Ok(fr)
                        && specs@[i]@ == fr.0@)
            },
            Err(e) => exists|i: int|
                0 <= i < results@.len() && ((#[trigger] results@[i]) matches Err(err) && err == e)
                    && (forall|k: int| 0 <= k < i ==> results@[k] is Ok),
        }),
{
    let n = results.len();
    let mut out: Vec<FunctionSpec> = Vec::new();
    let mut i: usize = 0;
    while i < n
        invariant
            0 <= i <= n,
            n == results@.len(),
            out@.len() == i,
            forall|k: int|
                0 <= k < i ==> ((#[trigger] results@[k]) matches Ok(fr) && out@[k]@ == fr.0@),
        decreases n - i,
    {
        match &results[i] {
            Ok(fr) => {
                let spec = fr.0.clone();
                out.push(spec);
            },
            Err(e) => {
                return Err(*e);
            },
        }
        i = i + 1;
    }
    Ok(out)
}

/// The conversation of one user turn: an ordered, append-only message
/// sequence, beginning with the user's utterance.
#[derive(Debug)]
pub struct Turn {
    messages: Vec<Message>,
}

impl View for Turn {
    type V = Seq<MessageV>;

    closed spec fn view(&self) -> Seq<MessageV> {
        msgs_view(self.messages@)
    }
}

impl Turn {
    /// Start a turn from the process input: exactly one user message
    /// holding the trimmed utterance. Fails when that single message
    /// alone does not fit the cheapest model tier.
    pub fn new(input: &str) -> (r: Result<Turn, TurnError>)
        ensures
            (match r {
                Ok(t) => t@ == seq![MessageV::User { content: spec_trim(input@) }]
                    && spec_model_fits(t@, 0),
                Err(e) => e == TurnError::InputDoesNotFit && !spec_model_fits(
                    seq![MessageV::User { content: spec_trim(input@) }],
                    0,
                ),
            }),
    {
        let content = trim_str(input);
        let msg = Message::User { content };
        let mut messages: Vec<Message> = Vec::new();
        messages.push(msg);
        proof {
            assert(msgs_view(messages@) =~= seq![
                MessageV::User { content: spec_trim(input@) },
            ]);
        }
        match messages_fit_model(model_name(0), &messages) {
            Some(true) => Ok(Turn { messages }),
            _ => Err(TurnError::InputDoesNotFit),
        }
    }

    /// The conversation so far.
    pub fn messages(&self) -> (r: &Vec<Message>)
        ensures
            msgs_view(r@) == self@,
    {
        &self.messages
    }

    /// Whether the turn has ended: the last message is the assistant's.
    /// While the loop is driven correctly a function-call request is
    /// always followed by its function result before this is consulted,
    /// so a true answer here means a plain answer was appended.
    pub fn is_done(&self) -> (r: bool)
        ensures
            r == (self@.len() > 0 && spec_role(self@.last()) == Role::Assistant),
    {
        let n = self.messages.len();
        if n == 0 {
            return false;
        }
        match &self.messages[n - 1] {
            Message::Assistant { .. } => true,
            Message::AssistantCall { .. } => true,
            _ => false,
        }
    }

    /// Append the one terminal message an assembled reply denotes.
    pub fn push_reply(&mut self, reply: Reply)
        ensures
            final(self)@ == old(self)@.push(message_of_reply(reply@)),
    {
        let m = reply_to_message(reply);
        self.messages.push(m);
        proof {
            assert(msgs_view(self.messages@) =~= msgs_view(old(self).messages@).push(
                message_of_reply(reply@),
            ));
        }
    }

    /// Append the function-role message that carries a call's outcome,
    /// under the same registered name the call was issued for.
    pub fn push_function_result(&mut self, name: &str, response: &FunctionResponse)
        ensures
            final(self)@ == old(self)@.push(
                MessageV::Function { name: name@, content: spec_response_text(response@) },
            ),
    {
        let m = make_function_message(name, response);
        self.messages.push(m);
        proof {
            assert(msgs_view(self.messages@) =~= msgs_view(old(self).messages@).push(
                MessageV::Function { name: name@, content: spec_response_text(response@) },
            ));
        }
    }

    /// Build the outgoing request for the conversation so far: the
    /// cheapest fitting model, the whole history as the context window,
    /// and — when the registry offered any — the merged function
    /// specifications. Fails only when no model tier fits, which is fatal
    /// for the turn.
    pub fn build_request(&self, functions: Vec<FunctionSpec>) -> (r: Result<Request, TurnError>)
        ensures
            (match r {
                Ok(req) => ({
                    &&& Some(req@.model) == spec_chosen_model(self@)
                    &&& req@.messages == self@
                    &&& req@.functions == (if functions@.len() > 0 {
                        Some(specs_view(functions@))
                    } else {
                        None::<Seq<FunctionSpecV>>
                    })
                }),
                Err(e) => e == TurnError::NoModelFits && spec_chosen_model(self@) is None,
            }),
    {
        let model = match choose_model(&self.messages) {
            Some(m) => m,
            None => {
                return Err(TurnError::NoModelFits);
            },
        };
        let messages = clone_messages(&self.messages);
        let functions = if functions.len() > 0 {
            Some(functions)
        } else {
            None
        };
        Ok(Request { model: String::from_str(model), messages, functions })
    }
}

} // verus!
