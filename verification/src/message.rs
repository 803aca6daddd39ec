//! Conversation messages. An assistant message is a closed union — plain
//! content or a function call, never both — validated once at the streaming
//! assembler boundary; the empty-content placeholder some wire formats want
//! beside a function call is confined to the wire helpers here.
use vstd::prelude::*;

use crate::registry::FunctionResponse;
use crate::registry::spec_response_text;
use crate::stream::Reply;
use crate::stream::ReplyV;
use crate::stream::Role;

verus! {

/// One message of the conversation.
#[derive(Debug)]
pub enum Message {
    /// The user's utterance.
    User { content: String },
    /// A plain assistant answer.
    Assistant { content: String },
    /// An assistant request to call a function.
    AssistantCall { name: String, arguments: String },
    /// A function's result, carrying the registered name it answers for.
    Function { name: String, content: String },
}

/// The mathematical shape of a [`Message`].
pub ghost enum MessageV {
    User { content: Seq<char> },
    Assistant { content: Seq<char> },
    AssistantCall { name: Seq<char>, arguments: Seq<char> },
    Function { name: Seq<char>, content: Seq<char> },
}

impl View for Message {
    type V = MessageV;

    open spec fn view(&self) -> MessageV {
        match self {
            Message::User { content } => MessageV::User { content: content@ },
            Message::Assistant { content } => MessageV::Assistant { content: content@ },
            Message::AssistantCall { name, arguments } => (MessageV::AssistantCall {
                name: name@,
                arguments: arguments@,
            }),
            Message::Function { name, content } => (MessageV::Function {
                name: name@,
                content: content@,
            }),
        }
    }
}

/// The views of a message list.
pub open spec fn msgs_view(v: Seq<Message>) -> Seq<MessageV> {
    Seq::new(v.len(), |i: int| v[i]@)
}

/// The author of a message.
pub open spec fn spec_role(m: MessageV) -> Role {
    match m {
        MessageV::User { .. } => Role::User,
        MessageV::Assistant { .. } => Role::Assistant,
        MessageV::AssistantCall { .. } => Role::Assistant,
        MessageV::Function { .. } => Role::Function,
    }
}

impl Clone for Message {
    /// Cloning preserves the denoted message.
    fn clone(&self) -> (r: Self)
        ensures
            r@ == self@,
    {
        match self {
            Message::User { content } => Message::User { content: content.clone() },
            Message::Assistant { content } => Message::Assistant { content: content.clone() },
            Message::AssistantCall { name, arguments } => Message::AssistantCall {
                name: name.clone(),
                arguments: arguments.clone(),
            },
            Message::Function { name, content } => Message::Function {
                name: name.clone(),
                content: content.clone(),
            },
        }
    }
}

/// Clone a message list.
pub fn clone_messages(v: &Vec<Message>) -> (r: Vec<Message>)
    ensures
        msgs_view(r@) == msgs_view(v@),
{
    let mut out: Vec<Message> = Vec::new();
    let n = v.len();
    let mut i: usize = 0;
    while i < n
        invariant
            0 <= i <= n,
            n == v@.len(),
            out@.len() == i,
            forall|k: int| 0 <= k < i ==> out@[k]@ == v@[k]@,
        decreases n - i,
    {
        let m = v[i].clone();
        out.push(m);
        i = i + 1;
    }
    proof {
        assert(msgs_view(out@) =~= msgs_view(v@));
    }
    out
}

impl Message {
    /// The role this message carries on the wire.
    pub fn wire_role(&self) -> (r: &'static str)
        ensures
            spec_role(self@) == Role::User ==> r@ == "user"@,
            spec_role(self@) == Role::Assistant ==> r@ == "assistant"@,
            spec_role(self@) == Role::Function ==> r@ == "function"@,
    {
        match self {
            Message::User { .. } => "user",
            Message::Assistant { .. } => "assistant",
            Message::AssistantCall { .. } => "assistant",
            Message::Function { .. } => "function",
        }
    }

    /// The content this message carries on the wire. A function-call
    /// message carries the empty placeholder the wire format wants beside
    /// a call.
    pub fn wire_content(&self) -> (r: &str)
        ensures
            (match self@ {
                MessageV::User { content } => r@ == content,
                MessageV::Assistant { content } => r@ == content,
                MessageV::AssistantCall { .. } => r@ == Seq::<char>::empty(),
                MessageV::Function { content, .. } => r@ == content,
            }),
    {
        match self {
            Message::User { content } => content.as_str(),
            Message::Assistant { content } => content.as_str(),
            Message::AssistantCall { .. } => {
                proof {
                    reveal_strlit("");
                    assert(""@ =~= Seq::<char>::empty());
                }
                ""
            },
            Message::Function { content, .. } => content.as_str(),
        }
    }

    /// The author name this message carries on the wire: only a function
    /// result is named.
    pub fn wire_name(&self) -> (r: Option<&str>)
        ensures
            (match self@ {
                MessageV::Function { name, .. } => r matches Some(s) && s@ == name,
                _ => r is None,
            }),
    {
        match self {
            Message::Function { name, .. } => Some(name.as_str()),
            _ => None,
        }
    }

    /// The function call this message carries on the wire, as name and
    /// arguments text.
    pub fn wire_call(&self) -> (r: Option<(&str, &str)>)
        ensures
            (match self@ {
                MessageV::AssistantCall { name, arguments } => r matches Some(c) && c.0@ == name
                    && c.1@ == arguments,
                _ => r is None,
            }),
    {
        match self {
            Message::AssistantCall { name, arguments } => Some((name.as_str(), arguments.as_str())),
            _ => None,
        }
    }
}

/// The message a terminal reply appends to the conversation.
pub open spec fn message_of_reply(r: ReplyV) -> MessageV {
    match r {
        ReplyV::Answer { content } => MessageV::Assistant { content },
        ReplyV::Call { name, arguments } => MessageV::AssistantCall { name, arguments },
    }
}

/// Turn an assembled reply into the conversation message it denotes.
pub fn reply_to_message(reply: Reply) -> (m: Message)
    ensures
        m@ == message_of_reply(reply@),
{
    match reply {
        Reply::Answer { content } => Message::Assistant { content },
        Reply::Call { name, arguments } => Message::AssistantCall { name, arguments },
    }
}

/// Build the function-role message that carries a call's outcome back to
/// the model, under the same registered name the call was issued for.
pub fn make_function_message(name: &str, response: &FunctionResponse) -> (m: Message)
    ensures
        m@ == (MessageV::Function { name: name@, content: spec_response_text(response@) }),
{
    let content = response.response_text();
    Message::Function { name: String::from_str(name), content }
}

} // verus!
