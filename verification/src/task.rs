//! The request task: the decision logic of one streaming completion request.
//!
//! The surrounding loop — await a chunk, hand it here, forward the cleaned
//! chunk, check the stop flag — runs outside the library, next to the network
//! client; every decision it takes is computed here. The task suppresses
//! whitespace-only chunks until real content arrives, strips the leading
//! whitespace of the first real chunk, accumulates what it forwards, and
//! resolves with the trimmed accumulation behind the captured prefix, or
//! with a fixed marker when nothing but whitespace ever arrived.

use vstd::prelude::*;

use crate::message::Role;
use crate::text::{is_blank, is_blank_exec, trim_end, trim_end_exec, trim_start, trim_start_exec};

verus! {

/// One turn of the history as it is handed to the inference service:
/// the plain data of a message, without display state.
pub struct WireMessage {
    pub role: Role,
    pub content: String,
    /// Paths of attached images; the caller of the inference service loads
    /// and encodes them.
    pub images: Vec<String>,
}

impl WireMessage {
    pub fn clone(&self) -> (m: Self)
        ensures
            m.role == self.role,
            m.content == self.content,
            m.images@ == self.images@,
    {
        let mut images: Vec<String> = Vec::new();
        let mut i: usize = 0;
        while i < self.images.len()
            invariant
                i <= self.images@.len(),
                images@ == self.images@.take(i as int),
            decreases self.images@.len() - i,
        {
            images.push(self.images[i].clone());
            i += 1;
            proof {
                assert(images@ =~= self.images@.take(i as int));
            }
        }
        proof {
            assert(self.images@.take(self.images@.len() as int) =~= self.images@);
        }
        WireMessage { role: self.role, content: self.content.clone(), images }
    }
}

/// The text shown in place of a completion that produced only whitespace.
/// Chosen without angle brackets so the transcript renderer does not read
/// it as markup.
pub open spec fn empty_marker() -> Seq<char> {
    "(empty response)"@
}

pub fn empty_marker_exec() -> (r: &'static str)
    ensures
        r@ == empty_marker(),
{
    "(empty response)"
}

/// The pre-seeded assistant text at the end of a history, captured so the
/// final response can be prepended with it; empty when the history does not
/// end in an assistant turn.
pub open spec fn spec_prefix_of(history: Seq<WireMessage>) -> Seq<char> {
    if history.len() > 0 && history.last().role == Role::Assistant {
        history.last().content@
    } else {
        Seq::empty()
    }
}

/// The abstract state of one streaming request.
#[verifier::ext_equal]
pub struct TaskModel {
    /// Captured pre-seeded assistant text, prepended to the final response.
    pub prefix: Seq<char>,
    /// Concatenation of every chunk forwarded so far.
    pub response: Seq<char>,
    /// Whether any non-whitespace content has arrived yet.
    pub seen_content: bool,
    /// The message index the request was addressed to when it was spawned.
    pub index: usize,
}

impl TaskModel {
    /// A fresh task over `history`, addressed at message `index`.
    pub open spec fn fresh(history: Seq<WireMessage>, index: usize) -> Self {
        TaskModel {
            prefix: spec_prefix_of(history),
            response: Seq::empty(),
            seen_content: false,
            index,
        }
    }

    /// Handle one incoming chunk: discard it while only whitespace has
    /// arrived and it is blank; otherwise strip the leading whitespace if it
    /// is the first real chunk, forward it, and accumulate it.
    pub open spec fn process(self, chunk: Seq<char>) -> (Self, Option<Seq<char>>) {
        if !self.seen_content && is_blank(chunk) {
            (self, None)
        } else {
            let fwd = if !self.seen_content {
                trim_start(chunk)
            } else {
                chunk
            };
            (
                TaskModel { response: self.response + fwd, seen_content: true, ..self },
                Some(fwd),
            )
        }
    }

    /// The state after handling each of `chunks` in order.
    pub open spec fn process_all(self, chunks: Seq<Seq<char>>) -> Self
        decreases chunks.len(),
    {
        if chunks.len() == 0 {
            self
        } else {
            self.process(chunks[0]).0.process_all(chunks.skip(1))
        }
    }

    /// The concatenation of everything forwarded while handling `chunks`.
    pub open spec fn forwarded_all(self, chunks: Seq<Seq<char>>) -> Seq<char>
        decreases chunks.len(),
    {
        if chunks.len() == 0 {
            Seq::empty()
        } else {
            let (next, fwd) = self.process(chunks[0]);
            (match fwd {
                Some(f) => f,
                None => Seq::empty(),
            }) + next.forwarded_all(chunks.skip(1))
        }
    }

    /// The text the request resolves with: the captured prefix, then the
    /// accumulated response without trailing whitespace, or the empty
    /// marker when nothing remains.
    pub open spec fn finished(self) -> Seq<char> {
        let core = trim_end(self.response);
        self.prefix + (if core.len() == 0 {
            empty_marker()
        } else {
            core
        })
    }
}

/// The accumulated response is exactly the concatenation of the forwarded
/// chunks, in forwarding order.
pub proof fn lemma_response_is_forwarded(t: TaskModel, chunks: Seq<Seq<char>>)
    ensures
        t.process_all(chunks).response == t.response + t.forwarded_all(chunks),
        t.process_all(chunks).prefix == t.prefix,
        t.process_all(chunks).index == t.index,
    decreases chunks.len(),
{
    if chunks.len() == 0 {
        assert(t.response + t.forwarded_all(chunks) =~= t.response);
    } else {
        let (next, fwd) = t.process(chunks[0]);
        lemma_response_is_forwarded(next, chunks.skip(1));
        let f = match fwd {
            Some(f) => f,
            None => Seq::<char>::empty(),
        };
        assert(next.response =~= t.response + f);
        assert(t.response + f + next.forwarded_all(chunks.skip(1)) =~= t.response
            + t.forwarded_all(chunks));
    }
}

/// The cancellation and completion law: a request that stops — by exhaustion
/// or by an observed stop request — after any number of forwarded chunks
/// resolves with the captured prefix followed by the trimmed concatenation
/// of exactly the chunks it forwarded, or by the empty marker when that
/// concatenation trims to nothing.
pub proof fn lemma_stop_after_chunks(history: Seq<WireMessage>, index: usize, chunks: Seq<
    Seq<char>,
>)
    ensures
        ({
            let t0 = TaskModel::fresh(history, index);
            let done = t0.process_all(chunks);
            let text = trim_end(t0.forwarded_all(chunks));
            &&& done.index == index
            &&& done.finished() == spec_prefix_of(history) + (if text.len() == 0 {
                empty_marker()
            } else {
                text
            })
        }),
{
    let t0 = TaskModel::fresh(history, index);
    lemma_response_is_forwarded(t0, chunks);
    assert(t0.response + t0.forwarded_all(chunks) =~= t0.forwarded_all(chunks));
}

/// The regeneration law: whatever the stream produces, the resolved text
/// starts with the captured prefix — the user-supplied seed of a
/// regenerated message survives at the front of the final response.
pub proof fn lemma_finished_starts_with_prefix(m: TaskModel)
    ensures
        m.finished().len() >= m.prefix.len(),
        m.finished().take(m.prefix.len() as int) == m.prefix,
{
    assert(m.finished().take(m.prefix.len() as int) =~= m.prefix);
}

/// The decision state of one streaming request, stepped by the loop that
/// owns the network stream.
pub struct StreamTask {
    prefix: String,
    response: String,
    seen_content: bool,
    index: usize,
}

impl View for StreamTask {
    type V = TaskModel;

    closed spec fn view(&self) -> TaskModel {
        TaskModel {
            prefix: self.prefix@,
            response: self.response@,
            seen_content: self.seen_content,
            index: self.index,
        }
    }
}

impl StreamTask {
    /// Begin a request over `history`, addressed at message `index`:
    /// captures the pre-seeded assistant text, if the history ends with one.
    pub fn new(history: &Vec<WireMessage>, index: usize) -> (t: Self)
        ensures
            t@ == TaskModel::fresh(history@, index),
    {
        let prefix: String = if history.len() > 0 {
            let last = &history[history.len() - 1];
            match last.role {
                Role::Assistant => last.content.clone(),
                Role::User => String::new(),
            }
        } else {
            String::new()
        };
        let t = StreamTask { prefix, response: String::new(), seen_content: false, index };
        proof {
            assert(t@ =~= TaskModel::fresh(history@, index));
        }
        t
    }

    /// The message index this request is addressed to.
    pub fn index(&self) -> (r: usize)
        ensures
            r == self@.index,
    {
        self.index
    }

    /// Handle one incoming chunk; returns the text to forward as a progress
    /// payload, or nothing when the chunk is suppressed.
    pub fn process_chunk(&mut self, chunk: &str) -> (r: Option<String>)
        ensures
            final(self)@ == old(self)@.process(chunk@).0,
            r is Some <==> old(self)@.process(chunk@).1 is Some,
            r matches Some(f) ==> Some(f@) == old(self)@.process(chunk@).1,
    {
        if !self.seen_content && is_blank_exec(chunk) {
            return None;
        }
        let fwd: String = if !self.seen_content {
            trim_start_exec(chunk)
        } else {
            chunk.to_owned()
        };
        self.seen_content = true;
        self.response.append(fwd.as_str());
        proof {
            assert(self@ =~= old(self)@.process(chunk@).0);
        }
        Some(fwd)
    }

    /// The success payload the request resolves with, and the message index
    /// it is addressed to.
    pub fn finish(&self) -> (r: (usize, String))
        ensures
            r.0 == self@.index,
            r.1@ == self@.finished(),
    {
        let core = trim_end_exec(self.response.as_str());
        let mut out = self.prefix.clone();
        if core.unicode_len() == 0 {
            out.append(empty_marker_exec());
        } else {
            out.append(core.as_str());
        }
        (self.index, out)
    }
}

} // verus!
