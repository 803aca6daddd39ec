//! The streaming assembler: reduces the ordered fragments of one streamed
//! reply to exactly one terminal message — a plain answer or a function-call
//! request. A fragment may carry a role (which must be the assistant's), a
//! content delta, a partial function call (a whole name, or an arguments
//! delta), and a finish reason on the terminal fragment.
use vstd::prelude::*;

use crate::jsontext::spec_normalize;
use crate::jsontext::try_compact_json;
use crate::text::spec_trim;
use crate::text::str_eq;
use crate::text::trim_str;

verus! {

/// The author of a message.
#[derive(Clone, Copy, Debug, PartialEq, Eq, Structural)]
pub enum Role {
    System,
    User,
    Assistant,
    Function,
}

/// A partial function call carried by one fragment: a name arrives whole,
/// arguments arrive as deltas split at arbitrary boundaries.
#[derive(Debug)]
pub struct CallDelta {
    pub name: Option<String>,
    pub arguments: Option<String>,
}

/// One incremental unit of a streamed reply.
#[derive(Debug)]
pub struct Fragment {
    pub role: Option<Role>,
    pub content: Option<String>,
    pub function_call: Option<CallDelta>,
    pub finish_reason: Option<String>,
}

/// The mathematical shape of a [`Fragment`].
pub ghost struct FragmentV {
    pub role: Option<Role>,
    pub content: Option<Seq<char>>,
    pub call_name: Option<Seq<char>>,
    pub call_arguments: Option<Seq<char>>,
    pub finish_reason: Option<Seq<char>>,
}

impl View for Fragment {
    type V = FragmentV;

    open spec fn view(&self) -> FragmentV {
        FragmentV {
            role: self.role,
            content: self.content.deep_view(),
            call_name: match self.function_call {
                Some(c) => c.name.deep_view(),
                None => None,
            },
            call_arguments: match self.function_call {
                Some(c) => c.arguments.deep_view(),
                None => None,
            },
            finish_reason: self.finish_reason.deep_view(),
        }
    }
}

/// The views of a fragment sequence.
pub open spec fn frags_view(v: Seq<Fragment>) -> Seq<FragmentV> {
    Seq::new(v.len(), |i: int| v[i]@)
}

/// The one terminal message of a reply: a plain answer, or a request to
/// call a function.
#[derive(Debug)]
pub enum Reply {
    Answer { content: String },
    Call { name: String, arguments: String },
}

/// The mathematical shape of a [`Reply`].
pub ghost enum ReplyV {
    Answer { content: Seq<char> },
    Call { name: Seq<char>, arguments: Seq<char> },
}

impl View for Reply {
    type V = ReplyV;

    open spec fn view(&self) -> ReplyV {
        match self {
            Reply::Answer { content } => ReplyV::Answer { content: content@ },
            Reply::Call { name, arguments } => (ReplyV::Call {
                name: name@,
                arguments: arguments@,
            }),
        }
    }
}

/// A violation of the streaming protocol: all three are fatal.
#[derive(Clone, Copy, Debug, PartialEq, Eq, Structural)]
pub enum StreamError {
    /// A fragment declared a role other than the assistant's.
    BadRole,
    /// The terminal fragment carried an unknown finish reason.
    BadFinishReason,
    /// The fragments ran out without any finish reason.
    MissingFinish,
}

/// How a whole fragment sequence assembles.
pub ghost enum StreamOutcomeV {
    Done(ReplyV),
    Failed(StreamError),
}

/// The characters of an optional delta; an absent delta contributes none.
pub open spec fn opt_seq(o: Option<Seq<char>>) -> Seq<char> {
    match o {
        Some(s) => s,
        None => Seq::empty(),
    }
}

/// A fragment that violates the protocol by declaring a foreign role.
pub open spec fn fragment_fails(f: FragmentV) -> bool {
    f.role matches Some(r) && r != Role::Assistant
}

/// A finish reason that ends the reply as a plain answer.
pub open spec fn is_stop_reason(fr: Seq<char>) -> bool {
    fr == "stop"@ || fr == "length"@
}

/// The finish reason that ends the reply as a function-call request.
pub open spec fn is_call_reason(fr: Seq<char>) -> bool {
    fr == "function_call"@
}

/// How the fragments from index `i` on assemble, starting from the given
/// buffer contents: each fragment in arrival order extends the content and
/// arguments buffers, overwrites the name buffer when it carries a name,
/// and the first finish reason ends the reply.
pub open spec fn spec_assemble_from(
    fs: Seq<FragmentV>,
    i: int,
    content: Seq<char>,
    name: Seq<char>,
    arguments: Seq<char>,
) -> StreamOutcomeV
    decreases fs.len() - i,
{
    if i < 0 || i >= fs.len() {
        StreamOutcomeV::Failed(StreamError::MissingFinish)
    } else {
        let f = fs[i];
        if fragment_fails(f) {
            StreamOutcomeV::Failed(StreamError::BadRole)
        } else {
            let content2 = content + opt_seq(f.content);
            let name2 = match f.call_name {
                Some(n) => n,
                None => name,
            };
            let arguments2 = arguments + opt_seq(f.call_arguments);
            match f.finish_reason {
                Some(fr) => if is_stop_reason(fr) {
                    StreamOutcomeV::Done(ReplyV::Answer { content: spec_trim(content2) })
                } else if is_call_reason(fr) {
                    StreamOutcomeV::Done(
                        ReplyV::Call {
                            name: spec_trim(name2),
                            arguments: spec_normalize(arguments2),
                        },
                    )
                } else {
                    StreamOutcomeV::Failed(StreamError::BadFinishReason)
                },
                None => spec_assemble_from(fs, i + 1, content2, name2, arguments2),
            }
        }
    }
}

/// How a whole fragment sequence assembles, from empty buffers.
pub open spec fn spec_assemble(fs: Seq<FragmentV>) -> StreamOutcomeV {
    spec_assemble_from(fs, 0, Seq::empty(), Seq::empty(), Seq::empty())
}

/// The per-reply state: three buffers, all initially empty.
#[derive(Debug)]
pub struct StreamAccumulator {
    pub content: String,
    pub name: String,
    pub arguments: String,
}

impl StreamAccumulator {
    /// Fresh buffers for one reply.
    pub fn new() -> (acc: Self)
        ensures
            acc.content@ == Seq::<char>::empty(),
            acc.name@ == Seq::<char>::empty(),
            acc.arguments@ == Seq::<char>::empty(),
    {
        StreamAccumulator { content: String::new(), name: String::new(), arguments: String::new() }
    }

    /// Feed one fragment, in arrival order. Returns the terminal reply once
    /// a finish reason arrives, an error on a protocol violation, and
    /// nothing while the reply is still streaming.
    pub fn feed(&mut self, f: &Fragment) -> (r: Result<Option<Reply>, StreamError>)
        ensures
            ({
                let c2 = old(self).content@ + opt_seq(f@.content);
                let n2 = match f@.call_name {
                    Some(n) => n,
                    None => old(self).name@,
                };
                let a2 = old(self).arguments@ + opt_seq(f@.call_arguments);
                &&& fragment_fails(f@) ==> r == Err::<Option<Reply>, StreamError>(
                    StreamError::BadRole,
                )
                &&& !fragment_fails(f@) ==> match f@.finish_reason {
                    None => {
                        &&& r == Ok::<Option<Reply>, StreamError>(None)
                        &&& final(self).content@ == c2
                        &&& final(self).name@ == n2
                        &&& final(self).arguments@ == a2
                    },
                    Some(fr) => if is_stop_reason(fr) {
                        r matches Ok(Some(reply)) && reply@ == (ReplyV::Answer {
                            content: spec_trim(c2),
                        })
                    } else if is_call_reason(fr) {
                        r matches Ok(Some(reply)) && reply@ == (ReplyV::Call {
                            name: spec_trim(n2),
                            arguments: spec_normalize(a2),
                        })
                    } else {
                        r == Err::<Option<Reply>, StreamError>(StreamError::BadFinishReason)
                    },
                }
            }),
    {
        if let Some(role) = &f.role {
            if !matches!(role, Role::Assistant) {
                return Err(StreamError::BadRole);
            }
        }
        if let Some(delta) = &f.content {
            self.content.append(delta.as_str());
        }
        if let Some(call) = &f.function_call {
            if let Some(name) = &call.name {
                self.name = name.clone();
            }
            if let Some(delta) = &call.arguments {
                self.arguments.append(delta.as_str());
            }
        }
        if let Some(finish) = &f.finish_reason {
            if str_eq(finish.as_str(), "stop") || str_eq(finish.as_str(), "length") {
                let content = trim_str(self.content.as_str());
                return Ok(Some(Reply::Answer { content }));
            }
            if str_eq(finish.as_str(), "function_call") {
                let name = trim_str(self.name.as_str());
                let arguments = try_compact_json(self.arguments.as_str());
                return Ok(Some(Reply::Call { name, arguments }));
            }
            return Err(StreamError::BadFinishReason);
        }
        Ok(None)
    }
}

/// Assemble a whole fragment sequence into its one terminal reply.
pub fn assemble(fragments: &Vec<Fragment>) -> (r: Result<Reply, StreamError>)
    ensures
        (match r {
            Ok(reply) => spec_assemble(frags_view(fragments@)) == StreamOutcomeV::Done(reply@),
            Err(e) => spec_assemble(frags_view(fragments@)) == StreamOutcomeV::Failed(e),
        }),
{
    let ghost fs = frags_view(fragments@);
    let mut acc = StreamAccumulator::new();
    let n = fragments.len();
    let mut i: usize = 0;
    while i < n
        invariant
            0 <= i <= n,
            n == fragments@.len(),
            fs == frags_view(fragments@),
            spec_assemble(fs) == spec_assemble_from(fs, i as int, acc.content@, acc.name@, acc.arguments@),
        decreases n - i,
    {
        proof {
            assert(fs[i as int] == fragments@[i as int]@);
        }
        let step = acc.feed(&fragments[i]);
        match step {
            Err(e) => {
                return Err(e);
            },
            Ok(Some(reply)) => {
                return Ok(reply);
            },
            Ok(None) => {
                i = i + 1;
            },
        }
    }
    Err(StreamError::MissingFinish)
}

/// The concatenation, in arrival order, of the content deltas of the first
/// `i` fragments.
pub open spec fn content_concat(fs: Seq<FragmentV>, i: int) -> Seq<char>
    decreases i,
{
    if i <= 0 {
        Seq::empty()
    } else {
        content_concat(fs, i - 1) + opt_seq(fs[i - 1].content)
    }
}

/// The concatenation, in arrival order, of the arguments deltas of the
/// first `i` fragments.
pub open spec fn args_concat(fs: Seq<FragmentV>, i: int) -> Seq<char>
    decreases i,
{
    if i <= 0 {
        Seq::empty()
    } else {
        args_concat(fs, i - 1) + opt_seq(fs[i - 1].call_arguments)
    }
}

/// The last name delta present among the first `i` fragments; empty when
/// none arrived.
pub open spec fn last_name(fs: Seq<FragmentV>, i: int) -> Seq<char>
    decreases i,
{
    if i <= 0 {
        Seq::empty()
    } else {
        match fs[i - 1].call_name {
            Some(n) => n,
            None => last_name(fs, i - 1),
        }
    }
}

/// A fragment that decides the reply: it fails the protocol or carries a
/// finish reason.
pub open spec fn decides(f: FragmentV) -> bool {
    fragment_fails(f) || f.finish_reason is Some
}

proof fn lemma_assemble_to(fs: Seq<FragmentV>, i: int, d: int)
    requires
        0 <= i <= d <= fs.len(),
        forall|k: int| i <= k < d ==> !decides(fs[k]),
    ensures
        spec_assemble_from(fs, i, content_concat(fs, i), last_name(fs, i), args_concat(fs, i))
            == spec_assemble_from(
            fs,
            d,
            content_concat(fs, d),
            last_name(fs, d),
            args_concat(fs, d),
        ),
    decreases d - i,
{
    if i < d {
        lemma_assemble_to(fs, i + 1, d);
    }
}

/// A reply whose first deciding fragment carries finish reason `"stop"` or
/// `"length"` assembles to a plain answer whose content is the trimmed
/// concatenation, in arrival order, of all content deltas up to and
/// including that fragment — and no function call.
pub proof fn lemma_reply_after_stop(fs: Seq<FragmentV>, d: int)
    requires
        0 <= d < fs.len(),
        forall|k: int| 0 <= k < d ==> !decides(fs[k]),
        !fragment_fails(fs[d]),
        fs[d].finish_reason matches Some(fr) && is_stop_reason(fr),
    ensures
        spec_assemble(fs) == StreamOutcomeV::Done(
            ReplyV::Answer { content: spec_trim(content_concat(fs, d + 1)) },
        ),
{
    lemma_assemble_to(fs, 0, d);
}

/// A reply whose first deciding fragment carries finish reason
/// `"function_call"` assembles to a function-call request whose name is the
/// trimmed last name delta observed and whose arguments are the compacted
/// concatenation, in arrival order, of all arguments deltas up to and
/// including that fragment.
pub proof fn lemma_reply_after_function_call(fs: Seq<FragmentV>, d: int)
    requires
        0 <= d < fs.len(),
        forall|k: int| 0 <= k < d ==> !decides(fs[k]),
        !fragment_fails(fs[d]),
        fs[d].finish_reason matches Some(fr) && is_call_reason(fr),
    ensures
        spec_assemble(fs) == StreamOutcomeV::Done(
            ReplyV::Call {
                name: spec_trim(last_name(fs, d + 1)),
                arguments: spec_normalize(args_concat(fs, d + 1)),
            },
        ),
{
    lemma_assemble_to(fs, 0, d);
    reveal_strlit("stop");
    reveal_strlit("length");
    reveal_strlit("function_call");
    assert(("function_call"@).len() == 13);
    assert(("stop"@).len() == 4);
    assert(("length"@).len() == 6);
}

proof fn lemma_last_name_cases(fs: Seq<FragmentV>, i: int)
    ensures
        last_name(fs, i) == Seq::<char>::empty() || exists|k: int|
            0 <= k < i && fs[k].call_name == Some(last_name(fs, i)),
    decreases i,
{
    if i > 0 {
        match fs[i - 1].call_name {
            Some(n) => {
                assert(fs[i - 1].call_name == Some(last_name(fs, i)));
            },
            None => {
                lemma_last_name_cases(fs, i - 1);
            },
        }
    }
}

/// When every name delta arrives as a whole, already-trimmed name — as the
/// protocol sends them — the reply's function name is exactly the last
/// name delta observed.
pub proof fn lemma_call_name_is_last_delta(fs: Seq<FragmentV>, d: int)
    requires
        0 <= d < fs.len(),
        forall|k: int| 0 <= k < d ==> !decides(fs[k]),
        !fragment_fails(fs[d]),
        fs[d].finish_reason matches Some(fr) && is_call_reason(fr),
        forall|k: int|
            0 <= k < fs.len() ==> ((#[trigger] fs[k].call_name) matches Some(n) ==> n
                == crate::text::spec_trim(n)),
    ensures
        spec_assemble(fs) == StreamOutcomeV::Done(
            ReplyV::Call {
                name: last_name(fs, d + 1),
                arguments: spec_normalize(args_concat(fs, d + 1)),
            },
        ),
{
    lemma_reply_after_function_call(fs, d);
    lemma_last_name_cases(fs, d + 1);
    let n = last_name(fs, d + 1);
    if n == Seq::<char>::empty() {
        assert(spec_trim(n) == n);
    } else {
        let k = choose|k: int| 0 <= k < d + 1 && fs[k].call_name == Some(n);
        assert(fs[k].call_name matches Some(m) ==> m == crate::text::spec_trim(m));
    }
}

/// A fragment sequence with no deciding fragment at all is a protocol
/// violation: the remote service owes a finish reason.
pub proof fn lemma_missing_finish(fs: Seq<FragmentV>)
    requires
        forall|k: int| 0 <= k < fs.len() ==> !decides(fs[k]),
    ensures
        spec_assemble(fs) == StreamOutcomeV::Failed(StreamError::MissingFinish),
{
    lemma_assemble_to(fs, 0, fs.len() as int);
}

} // verus!
