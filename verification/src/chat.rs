//! One chat session: its message list, its completion channel, its
//! cancellation flag, and the orchestration of sending a prompt, retrying
//! after an error, regenerating a response, and applying what the channel
//! delivers each frame.
//!
//! The session owns the consumer side of the lifecycle. The background task
//! that talks to the inference server runs outside the library; each frame,
//! the surrounding loop feeds what arrived into `deliver_progress`,
//! `deliver_success`, `deliver_failure` or `deliver_fault`, and then applies
//! everything to the message list with `poll_flower`.

use vstd::prelude::*;

use crate::channel::{Channel, Terminal};
use crate::flag::StopFlag;
use crate::message::{
    make_summary, msgs_view, spec_summary, strings_view, Message, MessageModel, Role,
};
use crate::picker::ModelPicker;
use crate::task::{spec_prefix_of, WireMessage};
use crate::text::{trim_end, trim_end_exec};

verus! {

/// Everything the surrounding loop needs to start one completion request:
/// which session and message it is addressed to, the model, the history to
/// send, and the template override, cloned at spawn time so the task never
/// reads session state back.
pub struct SpawnRequest {
    pub chat_id: usize,
    /// The index of the assistant message the response streams into.
    pub index: usize,
    pub model: String,
    pub history: Vec<WireMessage>,
    pub template: Option<String>,
}

/// A wire message carries the same conversation data as a display message.
pub open spec fn wire_matches(w: WireMessage, m: MessageModel) -> bool {
    &&& w.role == m.role
    &&& w.content@ == m.content
    &&& strings_view(w.images@) == m.images
}

/// A history that matches a message list turn for turn.
pub open spec fn wire_matches_all(ws: Seq<WireMessage>, ms: Seq<MessageModel>) -> bool {
    &&& ws.len() == ms.len()
    &&& forall|j: int| 0 <= j < ms.len() ==> wire_matches(#[trigger] ws[j], ms[j])
}

/// A request a session makes of its surroundings when an affordance is
/// used that the session cannot serve itself.
#[derive(Clone, Copy, Debug, PartialEq, Eq, Structural)]
pub enum ChatAction {
    /// Nothing to do.
    Idle,
    /// Open the image picker for the session with this id; the picked files
    /// come back through the registry's maintenance channel.
    PickImages { id: usize },
}

/// The ways a delivery from the background task can be out of protocol.
#[derive(Clone, Copy, Debug, PartialEq, Eq, Structural)]
pub enum DeliverError {
    /// No request is in flight.
    NotActive,
    /// The in-flight request has already resolved.
    AlreadyResolved,
    /// The payload is addressed outside the message list.
    BadIndex,
}

/// The message list without its error-flagged entries.
pub open spec fn keep_filter(ms: Seq<MessageModel>) -> Seq<MessageModel> {
    ms.filter(|m: MessageModel| !m.is_error)
}

/// Filtering peels elements off the back, one at a time.
proof fn lemma_keep_filter_push(s: Seq<MessageModel>, x: MessageModel)
    ensures
        keep_filter(s.push(x)) == (if !x.is_error {
            keep_filter(s).push(x)
        } else {
            keep_filter(s)
        }),
{
    assert(s.push(x).drop_last() =~= s);
    assert(s.push(x).last() == x);
    reveal_with_fuel(Seq::filter, 2);
}

/// The model of a fresh user turn.
pub open spec fn user_model(
    content: Seq<char>,
    model_name: Seq<char>,
    images: Seq<Seq<char>>,
    time: i64,
) -> MessageModel {
    MessageModel {
        content,
        role: Role::User,
        model_name,
        is_generating: false,
        is_error: false,
        time: time as int,
        images,
    }
}

/// The model of a fresh assistant placeholder.
pub open spec fn assistant_model(content: Seq<char>, model_name: Seq<char>, time: i64) -> MessageModel {
    MessageModel {
        content,
        role: Role::Assistant,
        model_name,
        is_generating: true,
        is_error: false,
        time: time as int,
        images: Seq::empty(),
    }
}

/// What accepting a prompt leaves behind, given the message list and prompt
/// text it acted on: old error messages dropped, a user turn and a fresh
/// assistant placeholder appended, the input cleared, the summary set from
/// the first prompt, the channel activated, and a request describing
/// exactly the new history.
pub open spec fn send_applied(
    pre: Chat,
    eff_msgs: Seq<MessageModel>,
    eff_chatbox: Seq<char>,
    post: Chat,
    req: SpawnRequest,
    now: i64,
) -> bool {
    let prompt = trim_end(eff_chatbox);
    let kept = keep_filter(eff_msgs);
    &&& msgs_view(post.messages@) == kept.push(
        user_model(prompt, pre.model_picker.selected.name@, strings_view(pre.images@), now),
    ).push(assistant_model(Seq::empty(), pre.model_picker.selected.name@, now))
    &&& post.chatbox@.len() == 0
    &&& post.images@.len() == 0
    &&& post.summary@ == (if pre.summary@.len() == 0 {
        spec_summary(prompt)
    } else {
        pre.summary@
    })
    &&& post.spec_flower() == pre.spec_flower().activated()
    &&& post.spec_id() == pre.spec_id()
    &&& post.spec_stop_raised() == pre.spec_stop_raised()
    &&& post.model_picker == pre.model_picker
    &&& post.prepend_buf == pre.prepend_buf
    &&& req.chat_id == pre.spec_id()
    &&& req.index == kept.len() + 1
    &&& req.model@ == pre.model_picker.selected.name@
    &&& wire_matches_all(req.history@, msgs_view(post.messages@))
    &&& req.template == pre.model_picker.template
    &&& spec_prefix_of(req.history@) == Seq::<char>::empty()
}

/// Convert the first `upto` messages into the plain history handed to the
/// inference service.
pub fn wire_history_prefix(messages: &Vec<Message>, upto: usize) -> (r: Vec<WireMessage>)
    requires
        upto <= messages@.len(),
    ensures
        wire_matches_all(r@, msgs_view(messages@.take(upto as int))),
{
    let mut r: Vec<WireMessage> = Vec::new();
    let mut i: usize = 0;
    while i < upto
        invariant
            i <= upto <= messages@.len(),
            r@.len() == i,
            forall|j: int| 0 <= j < i ==> wire_matches(#[trigger] r@[j], messages@[j]@),
        decreases upto - i,
    {
        let m = &messages[i];
        let mut images: Vec<String> = Vec::new();
        let mut k: usize = 0;
        while k < m.images.len()
            invariant
                k <= m.images@.len(),
                images@ == m.images@.take(k as int),
            decreases m.images@.len() - k,
        {
            images.push(m.images[k].clone());
            k += 1;
            proof {
                assert(images@ =~= m.images@.take(k as int));
            }
        }
        proof {
            assert(m.images@.take(m.images@.len() as int) =~= m.images@);
        }
        r.push(WireMessage { role: m.role, content: m.content.clone(), images });
        i += 1;
    }
    proof {
        assert forall|j: int| 0 <= j < i implies wire_matches(
            #[trigger] r@[j],
            msgs_view(messages@.take(upto as int))[j],
        ) by {
            assert(messages@.take(upto as int)[j] == messages@[j]);
        }
    }
    r
}

/// Convert a message list into the plain history handed to the inference
/// service.
pub fn get_context_messages(messages: &Vec<Message>) -> (r: Vec<WireMessage>)
    ensures
        wire_matches_all(r@, msgs_view(messages@)),
{
    let r = wire_history_prefix(messages, messages.len());
    proof {
        assert(messages@.take(messages@.len() as int) =~= messages@);
    }
    r
}

/// The progress text addressed to message `j` in a drained queue, in
/// arrival order.
pub open spec fn appended_for(q: Seq<(usize, String)>, j: int) -> Seq<char>
    decreases q.len(),
{
    if q.len() == 0 {
        Seq::empty()
    } else {
        (if q[0].0 == j {
            q[0].1@
        } else {
            Seq::empty()
        }) + appended_for(q.skip(1), j)
    }
}

/// Draining one more payload extends the text addressed to `j` at the back.
proof fn lemma_appended_for_take(q: Seq<(usize, String)>, k: int, j: int)
    requires
        0 <= k < q.len(),
    ensures
        appended_for(q.take(k + 1), j) == appended_for(q.take(k), j) + (if q[k].0 == j {
            q[k].1@
        } else {
            Seq::<char>::empty()
        }),
    decreases k,
{
    if k == 0 {
        assert(q.take(1) =~= seq![q[0]]);
        assert(q.take(1).skip(1) =~= Seq::<(usize, String)>::empty());
        assert(q.take(0) =~= Seq::<(usize, String)>::empty());
        assert(appended_for(q.take(1), j) =~= appended_for(q.take(0), j) + (if q[0].0 == j {
            q[0].1@
        } else {
            Seq::<char>::empty()
        }));
    } else {
        lemma_appended_for_take(q.skip(1), k - 1, j);
        assert(q.take(k + 1).skip(1) =~= q.skip(1).take(k));
        assert(q.take(k).skip(1) =~= q.skip(1).take(k - 1));
        assert(q.take(k + 1)[0] == q[0]);
        assert(q.take(k)[0] == q[0]);
        assert(q.skip(1)[k - 1] == q[k]);
        assert(appended_for(q.take(k + 1), j) == (if q[0].0 == j {
            q[0].1@
        } else {
            Seq::<char>::empty()
        }) + appended_for(q.skip(1).take(k), j));
        assert((if q[0].0 == j {
            q[0].1@
        } else {
            Seq::<char>::empty()
        }) + (appended_for(q.skip(1).take(k - 1), j) + (if q[k].0 == j {
            q[k].1@
        } else {
            Seq::<char>::empty()
        })) =~= appended_for(q.take(k), j) + (if q[k].0 == j {
            q[k].1@
        } else {
            Seq::<char>::empty()
        }));
    }
}

/// A message after the drained progress payloads have been applied: the
/// chunks addressed to it, appended in arrival order.
pub open spec fn msg_after_progress(m: MessageModel, q: Seq<(usize, String)>, j: int) -> MessageModel {
    MessageModel { content: m.content + appended_for(q, j), ..m }
}

/// A message after the drained terminal payload has been applied. A success
/// replaces the addressed message's text and ends its generating state; a
/// failure marks the addressed message as failed and shows the error text in
/// its place; a fault, which carries no index, blames the newest message.
pub open spec fn msg_after_terminal(
    m: MessageModel,
    t: Option<Terminal<(usize, String), (usize, String)>>,
    j: int,
    n: int,
) -> MessageModel {
    match t {
        None => m,
        Some(Terminal::Success((i, text))) => {
            if i == j {
                MessageModel { content: text@, is_generating: false, ..m }
            } else {
                m
            }
        },
        Some(Terminal::Failure((i, err))) => {
            if i == j {
                MessageModel { content: err@, is_generating: false, is_error: true, ..m }
            } else {
                m
            }
        },
        Some(Terminal::Fault(desc)) => {
            if j == n - 1 {
                MessageModel { content: desc@, is_generating: false, is_error: true, ..m }
            } else {
                m
            }
        },
    }
}

/// A message after one frame's poll: progress first, then the terminal.
pub open spec fn msg_after_poll(
    m: MessageModel,
    q: Seq<(usize, String)>,
    t: Option<Terminal<(usize, String), (usize, String)>>,
    j: int,
    n: int,
) -> MessageModel {
    msg_after_terminal(msg_after_progress(m, q, j), t, j, n)
}

/// Polling a session whose channel holds no request changes none of its
/// messages.
pub proof fn lemma_poll_idle_message(m: MessageModel, j: int, n: int)
    ensures
        msg_after_poll(
            m,
            Seq::<(usize, String)>::empty(),
            None::<Terminal<(usize, String), (usize, String)>>,
            j,
            n,
        ) == m,
{
    assert(appended_for(Seq::<(usize, String)>::empty(), j) =~= Seq::<char>::empty());
    assert(m.content + Seq::<char>::empty() =~= m.content);
    assert(msg_after_poll(
        m,
        Seq::<(usize, String)>::empty(),
        None::<Terminal<(usize, String), (usize, String)>>,
        j,
        n,
    ) =~= m);
}

/// The error text a poll surfaces as a blocking dialog: the failure or
/// fault description, if the terminal was one of those.
pub open spec fn poll_dialog(t: Option<Terminal<(usize, String), (usize, String)>>) -> Option<
    Seq<char>,
> {
    match t {
        Some(Terminal::Failure((_, err))) => Some(err@),
        Some(Terminal::Fault(desc)) => Some(desc@),
        _ => None,
    }
}

/// Append every drained chunk to the message it is addressed to, in
/// arrival order.
fn apply_progress(messages: &mut Vec<Message>, progress: &Vec<(usize, String)>)
    requires
        forall|k: int|
            0 <= k < progress@.len() ==> (#[trigger] progress@[k]).0 < old(messages)@.len(),
    ensures
        final(messages)@.len() == old(messages)@.len(),
        forall|j: int|
            0 <= j < old(messages)@.len() ==> final(messages)@[j]@ == msg_after_progress(
                old(messages)@[j]@,
                progress@,
                j,
            ),
{
    let ghost q = progress@;
    let mut k: usize = 0;
    proof {
        assert(q.take(0) =~= Seq::<(usize, String)>::empty());
        assert forall|j: int| 0 <= j < messages@.len() implies messages@[j]@ == msg_after_progress(
            messages@[j]@,
            q.take(0),
            j,
        ) by {
            assert(messages@[j]@.content + appended_for(q.take(0), j) =~= messages@[j]@.content);
            assert(msg_after_progress(messages@[j]@, q.take(0), j) =~= messages@[j]@);
        }
    }
    while k < progress.len()
        invariant
            q == progress@,
            k <= q.len(),
            forall|i: int| 0 <= i < q.len() ==> (#[trigger] q[i]).0 < old(messages)@.len(),
            messages@.len() == old(messages)@.len(),
            forall|j: int|
                0 <= j < old(messages)@.len() ==> messages@[j]@ == msg_after_progress(
                    old(messages)@[j]@,
                    q.take(k as int),
                    j,
                ),
        decreases q.len() - k,
    {
        let ghost pre = messages@;
        let idx = progress[k].0;
        messages[idx].content.append(progress[k].1.as_str());
        k += 1;
        proof {
            assert forall|j: int| 0 <= j < old(messages)@.len() implies messages@[j]@
                == msg_after_progress(old(messages)@[j]@, q.take(k as int), j) by {
                lemma_appended_for_take(q, k - 1, j);
                let delta = if q[k - 1].0 == j {
                    q[k - 1].1@
                } else {
                    Seq::<char>::empty()
                };
                assert(old(messages)@[j]@.content + appended_for(q.take(k as int), j) =~= (old(
                    messages,
                )@[j]@.content + appended_for(q.take(k - 1), j)) + delta);
                if j == idx {
                    assert(messages@[j]@ =~= msg_after_progress(
                        old(messages)@[j]@,
                        q.take(k as int),
                        j,
                    ));
                } else {
                    assert(messages@[j]@ == pre[j]@);
                    assert(messages@[j]@ =~= msg_after_progress(
                        old(messages)@[j]@,
                        q.take(k as int),
                        j,
                    ));
                }
            }
        }
    }
    proof {
        assert(q.take(q.len() as int) =~= q);
    }
}

/// Settle the message a terminal payload is addressed to, and surface the
/// error text when there is one.
fn apply_terminal(
    messages: &mut Vec<Message>,
    terminal: &Option<Terminal<(usize, String), (usize, String)>>,
) -> (dialog: Option<String>)
    requires
        match *terminal {
            Some(Terminal::Success((i, _))) => i < old(messages)@.len(),
            Some(Terminal::Failure((i, _))) => i < old(messages)@.len(),
            _ => true,
        },
    ensures
        final(messages)@.len() == old(messages)@.len(),
        forall|j: int|
            0 <= j < old(messages)@.len() ==> final(messages)@[j]@ == msg_after_terminal(
                old(messages)@[j]@,
                *terminal,
                j,
                old(messages)@.len() as int,
            ),
        dialog is Some <==> poll_dialog(*terminal) is Some,
        dialog matches Some(d) ==> Some(d@) == poll_dialog(*terminal),
{
    match terminal {
        None => None,
        Some(Terminal::Success((index, text))) => {
            let i = *index;
            messages[i].content = text.clone();
            messages[i].is_generating = false;
            proof {
                assert forall|j: int| 0 <= j < old(messages)@.len() implies messages@[j]@
                    == msg_after_terminal(
                    old(messages)@[j]@,
                    *terminal,
                    j,
                    old(messages)@.len() as int,
                ) by {
                    assert(messages@[j]@ =~= msg_after_terminal(
                        old(messages)@[j]@,
                        *terminal,
                        j,
                        old(messages)@.len() as int,
                    ));
                }
            }
            None
        },
        Some(Terminal::Failure((index, error))) => {
            let i = *index;
            messages[i].content = error.clone();
            messages[i].is_generating = false;
            messages[i].is_error = true;
            proof {
                assert forall|j: int| 0 <= j < old(messages)@.len() implies messages@[j]@
                    == msg_after_terminal(
                    old(messages)@[j]@,
                    *terminal,
                    j,
                    old(messages)@.len() as int,
                ) by {
                    assert(messages@[j]@ =~= msg_after_terminal(
                        old(messages)@[j]@,
                        *terminal,
                        j,
                        old(messages)@.len() as int,
                    ));
                }
            }
            Some(error.clone())
        },
        Some(Terminal::Fault(description)) => {
            if messages.len() > 0 {
                let i = messages.len() - 1;
                messages[i].content = description.clone();
                messages[i].is_generating = false;
                messages[i].is_error = true;
            }
            proof {
                assert forall|j: int| 0 <= j < old(messages)@.len() implies messages@[j]@
                    == msg_after_terminal(
                    old(messages)@[j]@,
                    *terminal,
                    j,
                    old(messages)@.len() as int,
                ) by {
                    assert(messages@[j]@ =~= msg_after_terminal(
                        old(messages)@[j]@,
                        *terminal,
                        j,
                        old(messages)@.len() as int,
                    ));
                }
            }
            Some(description.clone())
        },
    }
}

/// How one frame's poll transforms one session, stated over that session
/// alone: every message gets exactly the progress chunks addressed to it, a
/// terminal settles its message and idles the channel, the stop flag is
/// lowered exactly when a terminal was observed, and nothing else changes.
/// A session's poll reads nothing of any other session.
pub open spec fn chat_poll_rel(pre: Chat, post: Chat) -> bool {
    &&& post.messages@.len() == pre.messages@.len()
    &&& forall|j: int|
        0 <= j < pre.messages@.len() ==> post.messages@[j]@ == msg_after_poll(
            pre.messages@[j]@,
            pre.spec_flower().queue,
            pre.spec_flower().terminal,
            j,
            pre.messages@.len() as int,
        )
    &&& post.spec_flower() == pre.spec_flower().polled().2
    &&& (pre.spec_flower().terminal is Some ==> !post.spec_stop_raised())
    &&& (pre.spec_flower().terminal is None ==> post.spec_stop_raised() == pre.spec_stop_raised())
    &&& post.spec_id() == pre.spec_id()
    &&& post.spec_retry_idx() == pre.spec_retry_idx()
    &&& post.chatbox == pre.chatbox
    &&& post.summary == pre.summary
    &&& post.model_picker == pre.model_picker
    &&& post.images == pre.images
    &&& post.prepend_buf == pre.prepend_buf
}

/// The newest message content to preview for a session: the last message
/// whose content is not empty, with user turns prefixed by "You: ".
pub open spec fn spec_last_message_contents(ms: Seq<MessageModel>) -> Option<Seq<char>>
    decreases ms.len(),
{
    if ms.len() == 0 {
        None
    } else if ms.last().content.len() > 0 {
        if ms.last().role == Role::User {
            Some("You: "@ + ms.last().content)
        } else {
            Some(ms.last().content)
        }
    } else {
        spec_last_message_contents(ms.drop_last())
    }
}

/// One conversation: its messages, its in-flight request if any, and the
/// input state around them.
pub struct Chat {
    pub id: usize,
    /// The prompt being typed.
    pub chatbox: String,
    pub messages: Vec<Message>,
    pub flower: Channel<(usize, String), (usize, String), (usize, String)>,
    pub retry_message_idx: Option<usize>,
    /// The short title the session list shows, set from the first prompt.
    pub summary: String,
    pub stop_generating: StopFlag,
    pub model_picker: ModelPicker,
    /// Images picked for the next prompt.
    pub images: Vec<String>,
    /// Seed text for a regenerated response.
    pub prepend_buf: String,
}

impl Chat {
    /// The session id, issued by the registry; never reused.
    pub open spec fn spec_id(self) -> usize {
        self.id
    }

    /// The abstract state of the completion channel.
    pub open spec fn spec_flower(self) -> crate::channel::ChannelModel<
        (usize, String),
        (usize, String),
        (usize, String),
    > {
        self.flower@
    }

    /// Whether a stop has been requested and not yet observed.
    pub open spec fn spec_stop_raised(self) -> bool {
        self.stop_generating.spec_raised()
    }

    /// The pending retry, set when the retry affordance of an errored
    /// message is used.
    pub open spec fn spec_retry_idx(self) -> Option<usize> {
        self.retry_message_idx
    }

    /// Everything buffered in the channel is addressed to an existing
    /// message, and an idle channel buffers nothing.
    pub open spec fn wf(self) -> bool {
        &&& (!self.spec_flower().active ==> self.spec_flower().queue.len() == 0
            && self.spec_flower().terminal is None)
        &&& forall|k: int|
            0 <= k < self.spec_flower().queue.len() ==> (#[trigger] self.spec_flower().queue[k]).0
                < self.messages@.len()
        &&& match self.spec_flower().terminal {
            Some(Terminal::Success((i, _))) => i < self.messages@.len(),
            Some(Terminal::Failure((i, _))) => i < self.messages@.len(),
            _ => true,
        }
    }

    /// A fresh session under `id`, configured like `model_picker`.
    pub fn new(id: usize, model_picker: ModelPicker) -> (c: Self)
        ensures
            c.wf(),
            c.spec_id() == id,
            !c.spec_flower().active,
            c.chatbox@ == Seq::<char>::empty(),
            c.messages@.len() == 0,
            c.summary@ == Seq::<char>::empty(),
            !c.spec_stop_raised(),
            c.spec_retry_idx() is None,
            c.model_picker == model_picker,
            c.images@.len() == 0,
            c.prepend_buf@ == Seq::<char>::empty(),
    {
        Chat {
            id,
            chatbox: String::new(),
            messages: Vec::new(),
            flower: Channel::new(id),
            retry_message_idx: None,
            summary: String::new(),
            stop_generating: StopFlag::new(),
            model_picker,
            images: Vec::new(),
            prepend_buf: String::new(),
        }
    }

    pub fn id(&self) -> (r: usize)
        ensures
            r == self.spec_id(),
    {
        self.id
    }

    /// Whether a completion request is in flight for this session.
    pub fn flower_active(&self) -> (r: bool)
        ensures
            r == self.spec_flower().active,
    {
        self.flower.is_active()
    }

    /// Ask the in-flight request to stop after the chunk it is handling;
    /// idempotent, and a no-op on everything but the flag.
    pub fn request_stop(&mut self)
        ensures
            final(self).spec_stop_raised(),
            final(self).spec_id() == old(self).spec_id(),
            final(self).spec_flower() == old(self).spec_flower(),
            final(self).spec_retry_idx() == old(self).spec_retry_idx(),
            final(self).chatbox == old(self).chatbox,
            final(self).messages == old(self).messages,
            final(self).summary == old(self).summary,
            final(self).model_picker == old(self).model_picker,
            final(self).images == old(self).images,
            final(self).prepend_buf == old(self).prepend_buf,
            final(self).wf() == old(self).wf(),
    {
        self.stop_generating.request_stop();
    }

    /// Feed one progress payload that arrived from the background task into
    /// the session's channel. Rejected — with nothing changed — when no
    /// request is in flight, when the in-flight request has already
    /// resolved, or when the payload is addressed outside the message list.
    pub fn deliver_progress(&mut self, index: usize, chunk: String) -> (r: Result<
        (),
        DeliverError,
    >)
        requires
            old(self).wf(),
        ensures
            final(self).wf(),
            r is Ok <==> old(self).spec_flower().active && old(self).spec_flower().terminal is None
                && index < old(self).messages@.len(),
            r is Ok ==> final(self).spec_flower() == old(self).spec_flower().sent((index, chunk)),
            r is Err ==> final(self).spec_flower() == old(self).spec_flower(),
            r is Err ==> r == Err::<(), DeliverError>(
                if !old(self).spec_flower().active {
                    DeliverError::NotActive
                } else if old(self).spec_flower().terminal is Some {
                    DeliverError::AlreadyResolved
                } else {
                    DeliverError::BadIndex
                },
            ),
            final(self).messages == old(self).messages,
            final(self).spec_id() == old(self).spec_id(),
            final(self).spec_stop_raised() == old(self).spec_stop_raised(),
            final(self).spec_retry_idx() == old(self).spec_retry_idx(),
            final(self).chatbox == old(self).chatbox,
            final(self).summary == old(self).summary,
            final(self).model_picker == old(self).model_picker,
            final(self).images == old(self).images,
            final(self).prepend_buf == old(self).prepend_buf,
    {
        if !self.flower.is_active() {
            return Err(DeliverError::NotActive);
        }
        if self.flower.is_resolved() {
            return Err(DeliverError::AlreadyResolved);
        }
        if index >= self.messages.len() {
            return Err(DeliverError::BadIndex);
        }
        self.flower.send_progress((index, chunk));
        Ok(())
    }

    /// Feed the success terminal of the in-flight request into the channel:
    /// `text` is the final response for the message at `index`. Rejected
    /// under the same conditions as a progress payload.
    pub fn deliver_success(&mut self, index: usize, text: String) -> (r: Result<(), DeliverError>)
        requires
            old(self).wf(),
        ensures
            final(self).wf(),
            r is Ok <==> old(self).spec_flower().active && old(self).spec_flower().terminal is None
                && index < old(self).messages@.len(),
            r is Ok ==> final(self).spec_flower() == old(self).spec_flower().resolved(
                Terminal::Success((index, text)),
            ),
            r is Err ==> final(self).spec_flower() == old(self).spec_flower(),
            r is Err ==> r == Err::<(), DeliverError>(
                if !old(self).spec_flower().active {
                    DeliverError::NotActive
                } else if old(self).spec_flower().terminal is Some {
                    DeliverError::AlreadyResolved
                } else {
                    DeliverError::BadIndex
                },
            ),
            final(self).messages == old(self).messages,
            final(self).spec_id() == old(self).spec_id(),
            final(self).spec_stop_raised() == old(self).spec_stop_raised(),
            final(self).spec_retry_idx() == old(self).spec_retry_idx(),
            final(self).chatbox == old(self).chatbox,
            final(self).summary == old(self).summary,
            final(self).model_picker == old(self).model_picker,
            final(self).images == old(self).images,
            final(self).prepend_buf == old(self).prepend_buf,
    {
        if !self.flower.is_active() {
            return Err(DeliverError::NotActive);
        }
        if self.flower.is_resolved() {
            return Err(DeliverError::AlreadyResolved);
        }
        if index >= self.messages.len() {
            return Err(DeliverError::BadIndex);
        }
        self.flower.resolve(Terminal::Success((index, text)));
        Ok(())
    }

    /// Feed the failure terminal of the in-flight request into the channel:
    /// the request for the message at `index` failed with `error`. Rejected
    /// under the same conditions as a progress payload.
    pub fn deliver_failure(&mut self, index: usize, error: String) -> (r: Result<(), DeliverError>)
        requires
            old(self).wf(),
        ensures
            final(self).wf(),
            r is Ok <==> old(self).spec_flower().active && old(self).spec_flower().terminal is None
                && index < old(self).messages@.len(),
            r is Ok ==> final(self).spec_flower() == old(self).spec_flower().resolved(
                Terminal::Failure((index, error)),
            ),
            r is Err ==> final(self).spec_flower() == old(self).spec_flower(),
            r is Err ==> r == Err::<(), DeliverError>(
                if !old(self).spec_flower().active {
                    DeliverError::NotActive
                } else if old(self).spec_flower().terminal is Some {
                    DeliverError::AlreadyResolved
                } else {
                    DeliverError::BadIndex
                },
            ),
            final(self).messages == old(self).messages,
            final(self).spec_id() == old(self).spec_id(),
            final(self).spec_stop_raised() == old(self).spec_stop_raised(),
            final(self).spec_retry_idx() == old(self).spec_retry_idx(),
            final(self).chatbox == old(self).chatbox,
            final(self).summary == old(self).summary,
            final(self).model_picker == old(self).model_picker,
            final(self).images == old(self).images,
            final(self).prepend_buf == old(self).prepend_buf,
    {
        if !self.flower.is_active() {
            return Err(DeliverError::NotActive);
        }
        if self.flower.is_resolved() {
            return Err(DeliverError::AlreadyResolved);
        }
        if index >= self.messages.len() {
            return Err(DeliverError::BadIndex);
        }
        self.flower.resolve(Terminal::Failure((index, error)));
        Ok(())
    }

    /// Feed the fault terminal into the channel: the background task died
    /// without resolving, so no message index is known. Rejected when no
    /// request is in flight or it has already resolved.
    pub fn deliver_fault(&mut self, description: String) -> (r: Result<(), DeliverError>)
        requires
            old(self).wf(),
        ensures
            final(self).wf(),
            r is Ok <==> old(self).spec_flower().active && old(
                self,
            ).spec_flower().terminal is None,
            r is Ok ==> final(self).spec_flower() == old(self).spec_flower().resolved(
                Terminal::Fault(description),
            ),
            r is Err ==> final(self).spec_flower() == old(self).spec_flower(),
            r is Err ==> r == Err::<(), DeliverError>(
                if !old(self).spec_flower().active {
                    DeliverError::NotActive
                } else {
                    DeliverError::AlreadyResolved
                },
            ),
            final(self).messages == old(self).messages,
            final(self).spec_id() == old(self).spec_id(),
            final(self).spec_stop_raised() == old(self).spec_stop_raised(),
            final(self).spec_retry_idx() == old(self).spec_retry_idx(),
            final(self).chatbox == old(self).chatbox,
            final(self).summary == old(self).summary,
            final(self).model_picker == old(self).model_picker,
            final(self).images == old(self).images,
            final(self).prepend_buf == old(self).prepend_buf,
    {
        if !self.flower.is_active() {
            return Err(DeliverError::NotActive);
        }
        if self.flower.is_resolved() {
            return Err(DeliverError::AlreadyResolved);
        }
        self.flower.resolve(Terminal::Fault(description));
        Ok(())
    }

    /// Apply one frame's worth of channel payloads to the message list:
    /// every buffered chunk is appended to the message it is addressed to,
    /// in arrival order; a terminal payload then settles its message and
    /// returns the channel to idle. Returns the error text to show in a
    /// blocking dialog when the request failed or the task died. Observing
    /// any terminal also lowers the stop flag, so the next request starts
    /// with a clean one.
    pub fn poll_flower(&mut self) -> (dialog: Option<String>)
        requires
            old(self).wf(),
        ensures
            final(self).wf(),
            final(self).messages@.len() == old(self).messages@.len(),
            forall|j: int|
                0 <= j < old(self).messages@.len() ==> final(self).messages@[j]@ == msg_after_poll(
                    old(self).messages@[j]@,
                    old(self).spec_flower().queue,
                    old(self).spec_flower().terminal,
                    j,
                    old(self).messages@.len() as int,
                ),
            final(self).spec_flower() == old(self).spec_flower().polled().2,
            dialog is Some <==> poll_dialog(old(self).spec_flower().terminal) is Some,
            dialog matches Some(d) ==> Some(d@) == poll_dialog(old(self).spec_flower().terminal),
            old(self).spec_flower().terminal is Some ==> !final(self).spec_stop_raised(),
            old(self).spec_flower().terminal is None ==> final(self).spec_stop_raised() == old(
                self,
            ).spec_stop_raised(),
            final(self).spec_id() == old(self).spec_id(),
            final(self).spec_retry_idx() == old(self).spec_retry_idx(),
            final(self).chatbox == old(self).chatbox,
            final(self).summary == old(self).summary,
            final(self).model_picker == old(self).model_picker,
            final(self).images == old(self).images,
            final(self).prepend_buf == old(self).prepend_buf,
            chat_poll_rel(*old(self), *final(self)),
    {
        let (progress, terminal) = self.flower.poll_and_drain();
        apply_progress(&mut self.messages, &progress);
        let dialog = apply_terminal(&mut self.messages, &terminal);
        if terminal.is_some() {
            self.stop_generating.clear();
        }
        dialog
    }

    /// Accept the prompt in the chatbox: drop earlier error messages, append
    /// the user turn and an assistant placeholder for the response, set the
    /// session summary from the first prompt, activate the channel, and
    /// return the request the surrounding loop must spawn. An empty chatbox
    /// sends nothing and changes nothing.
    pub fn send_message(&mut self, now: i64) -> (r: Option<SpawnRequest>)
        requires
            old(self).wf(),
            !old(self).spec_flower().active,
        ensures
            final(self).wf(),
            r is None <==> old(self).chatbox@.len() == 0,
            r is None ==> *final(self) == *old(self),
            r matches Some(req) ==> send_applied(
                *old(self),
                msgs_view(old(self).messages@),
                old(self).chatbox@,
                *final(self),
                req,
                now,
            ),
            final(self).spec_retry_idx() == old(self).spec_retry_idx(),
    {
        if self.chatbox.as_str().is_empty() {
            return None;
        }
        let prompt = trim_end_exec(self.chatbox.as_str());

        // drop error-flagged messages; their retry affordance is gone now
        let mut kept: Vec<Message> = Vec::new();
        let mut i: usize = 0;
        proof {
            assert(msgs_view(self.messages@.take(0)) =~= Seq::<MessageModel>::empty());
            assert(keep_filter(Seq::<MessageModel>::empty()) =~= Seq::<MessageModel>::empty());
        }
        while i < self.messages.len()
            invariant
                i <= self.messages@.len(),
                msgs_view(kept@) == keep_filter(msgs_view(self.messages@.take(i as int))),
            decreases self.messages@.len() - i,
        {
            let ghost pre_kept = kept@;
            if !self.messages[i].is_error {
                kept.push(self.messages[i].clone());
                proof {
                    assert(msgs_view(kept@) =~= msgs_view(pre_kept).push(
                        self.messages@[i as int]@,
                    ));
                }
            }
            i += 1;
            proof {
                assert(msgs_view(self.messages@.take(i as int)) =~= msgs_view(
                    self.messages@.take(i - 1),
                ).push(self.messages@[i - 1]@));
                lemma_keep_filter_push(
                    msgs_view(self.messages@.take(i - 1)),
                    self.messages@[i - 1]@,
                );
            }
        }
        proof {
            assert(self.messages@.take(self.messages@.len() as int) =~= self.messages@);
        }
        core::mem::swap(&mut self.messages, &mut kept);

        let model_name = self.model_picker.selected_model();
        let mut images: Vec<String> = Vec::new();
        core::mem::swap(&mut images, &mut self.images);
        let user = Message::user(prompt.clone(), model_name.clone(), images, now);
        proof {
            assert(user@ =~= user_model(
                trim_end(old(self).chatbox@),
                old(self).model_picker.selected.name@,
                strings_view(old(self).images@),
                now,
            ));
        }
        self.messages.push(user);

        if self.summary.as_str().is_empty() {
            self.summary = make_summary(prompt.as_str());
        }
        self.chatbox = String::new();

        let assistant = Message::assistant(String::new(), model_name.clone(), now);
        proof {
            assert(assistant@ =~= assistant_model(
                Seq::<char>::empty(),
                old(self).model_picker.selected.name@,
                now,
            ));
        }
        self.messages.push(assistant);

        self.flower.activate();

        let history = get_context_messages(&self.messages);
        let index = self.messages.len() - 1;
        let template: Option<String> = match &self.model_picker.template {
            Some(t) => Some(t.clone()),
            None => None,
        };
        let req = SpawnRequest { chat_id: self.id, index, model: model_name, history, template };
        proof {
            let post_view = msgs_view(self.messages@);
            assert(post_view =~= keep_filter(msgs_view(old(self).messages@)).push(
                user_model(
                    trim_end(old(self).chatbox@),
                    old(self).model_picker.selected.name@,
                    strings_view(old(self).images@),
                    now,
                ),
            ).push(assistant_model(Seq::<char>::empty(), old(self).model_picker.selected.name@, now)));
            assert(req.history@.last().role == Role::Assistant);
            assert(req.history@.last().content@ =~= Seq::<char>::empty());
            assert(spec_prefix_of(req.history@) =~= Seq::<char>::empty());
        }
        Some(req)
    }

    /// Regenerate the assistant message at `idx`: the history is truncated
    /// to the messages before it, the seed text in `prepend_buf` becomes the
    /// message's pre-seeded content and the last turn of the new history, and
    /// a new request addressed at `idx` is started. The resolved response
    /// will carry the seed as its prefix.
    pub fn regenerate_response(&mut self, idx: usize) -> (req: SpawnRequest)
        requires
            old(self).wf(),
            !old(self).spec_flower().active,
            idx < old(self).messages@.len(),
        ensures
            final(self).wf(),
            final(self).messages@.len() == old(self).messages@.len(),
            forall|j: int|
                0 <= j < old(self).messages@.len() && j != idx ==> final(self).messages@[j] == old(
                    self,
                ).messages@[j],
            final(self).messages@[idx as int]@ == (MessageModel {
                content: old(self).prepend_buf@,
                is_generating: true,
                is_error: false,
                ..old(self).messages@[idx as int]@
            }),
            final(self).prepend_buf@.len() == 0,
            final(self).spec_flower() == old(self).spec_flower().activated(),
            req.chat_id == old(self).spec_id(),
            req.index == idx,
            req.model == old(self).messages@[idx as int].model_name,
            req.history@.len() == idx + 1,
            wire_matches_all(
                req.history@.take(idx as int),
                msgs_view(old(self).messages@.take(idx as int)),
            ),
            req.history@.last().role == Role::Assistant,
            req.history@.last().content@ == old(self).prepend_buf@,
            spec_prefix_of(req.history@) == old(self).prepend_buf@,
            req.template == old(self).model_picker.template,
            final(self).spec_id() == old(self).spec_id(),
            final(self).spec_stop_raised() == old(self).spec_stop_raised(),
            final(self).spec_retry_idx() == old(self).spec_retry_idx(),
            final(self).chatbox == old(self).chatbox,
            final(self).summary == old(self).summary,
            final(self).model_picker == old(self).model_picker,
            final(self).images == old(self).images,
    {
        let mut history = wire_history_prefix(&self.messages, idx);
        let mut seed = String::new();
        core::mem::swap(&mut seed, &mut self.prepend_buf);
        history.push(WireMessage { role: Role::Assistant, content: seed.clone(), images: Vec::new() });
        self.messages[idx].content = seed;
        self.messages[idx].is_generating = true;
        self.messages[idx].is_error = false;
        self.flower.activate();
        let model = self.messages[idx].model_name.clone();
        let template: Option<String> = match &self.model_picker.template {
            Some(t) => Some(t.clone()),
            None => None,
        };
        proof {
            assert(self.messages@[idx as int]@ =~= (MessageModel {
                content: old(self).prepend_buf@,
                is_generating: true,
                is_error: false,
                ..old(self).messages@[idx as int]@
            }));
            assert(history@.take(idx as int) =~= history@.drop_last());
        }
        SpawnRequest { chat_id: self.id, index: idx, model, history, template }
    }

    /// Act on a recorded retry: remove the errored assistant message and the
    /// user message before it, restore that user text into the chatbox, and
    /// resubmit it as a fresh prompt. Without a recorded retry — or with one
    /// that no longer addresses an errored pair — nothing is resubmitted.
    pub fn process_retry(&mut self, now: i64) -> (r: Option<SpawnRequest>)
        requires
            old(self).wf(),
            !old(self).spec_flower().active,
        ensures
            final(self).wf(),
            old(self).spec_retry_idx() is None ==> r is None && *final(self) == *old(self),
            old(self).spec_retry_idx() is Some ==> ({
                let i = old(self).spec_retry_idx().unwrap() as int;
                (i == 0 || i >= old(self).messages@.len()) ==> {
                    &&& r is None
                    &&& final(self).spec_retry_idx() is None
                    &&& final(self).messages == old(self).messages
                    &&& final(self).chatbox == old(self).chatbox
                    &&& final(self).spec_flower() == old(self).spec_flower()
                }
            }),
            old(self).spec_retry_idx() is Some ==> ({
                let i = old(self).spec_retry_idx().unwrap() as int;
                0 < i < old(self).messages@.len() ==> ({
                let user_text = old(self).messages@[i - 1]@.content;
                let remaining = msgs_view(old(self).messages@).remove(i).remove(i - 1);
                &&& final(self).spec_retry_idx() is None
                &&& (r is None <==> user_text.len() == 0)
                &&& (r is None ==> {
                    &&& msgs_view(final(self).messages@) == remaining
                    &&& final(self).chatbox@ == user_text
                    &&& final(self).spec_flower() == old(self).spec_flower()
                })
                &&& (r matches Some(req) ==> send_applied(
                    *old(self),
                    remaining,
                    user_text,
                    *final(self),
                    req,
                    now,
                ))
            })
            }),
    {
        let idx_opt = self.retry_message_idx;
        self.retry_message_idx = None;
        let i = match idx_opt {
            None => {
                return None;
            },
            Some(i) => i,
        };
        if i == 0 || i >= self.messages.len() {
            return None;
        }
        self.chatbox = self.messages[i - 1].content.clone();
        self.messages.remove(i);
        self.messages.remove(i - 1);
        proof {
            assert(msgs_view(self.messages@) =~= msgs_view(old(self).messages@).remove(
                i as int,
            ).remove(i - 1));
        }
        self.send_message(now)
    }

    /// Submit `text` as if it had been typed into the chatbox: the prompt
    /// suggestions send their canned prompts through this.
    pub fn send_text(&mut self, text: &str, now: i64) -> (r: Option<SpawnRequest>)
        requires
            old(self).wf(),
            !old(self).spec_flower().active,
        ensures
            final(self).wf(),
            r is None <==> text@.len() == 0,
            r matches Some(req) ==> send_applied(
                *old(self),
                msgs_view(old(self).messages@),
                text@,
                *final(self),
                req,
                now,
            ),
    {
        self.chatbox = text.to_owned();
        let ghost mid = *self;
        proof {
            assert(msgs_view(mid.messages@) == msgs_view(old(self).messages@));
        }
        let r = self.send_message(now);
        proof {
            if r is Some {
                assert(send_applied(
                    mid,
                    msgs_view(mid.messages@),
                    text@,
                    *self,
                    r.unwrap(),
                    now,
                ));
            }
        }
        r
    }

    /// Replace the content of the message at `idx` with the seed text, as
    /// the edit affordance does, without regenerating anything; the seed
    /// buffer is cleared.
    pub fn apply_prepend_edit(&mut self, idx: usize)
        requires
            old(self).wf(),
            idx < old(self).messages@.len(),
        ensures
            final(self).wf(),
            final(self).messages@.len() == old(self).messages@.len(),
            final(self).messages@[idx as int]@ == (MessageModel {
                content: old(self).prepend_buf@,
                ..old(self).messages@[idx as int]@
            }),
            forall|j: int|
                0 <= j < old(self).messages@.len() && j != idx ==> final(self).messages@[j] == old(
                    self,
                ).messages@[j],
            final(self).prepend_buf@.len() == 0,
            final(self).spec_id() == old(self).spec_id(),
            final(self).spec_flower() == old(self).spec_flower(),
            final(self).spec_stop_raised() == old(self).spec_stop_raised(),
            final(self).spec_retry_idx() == old(self).spec_retry_idx(),
            final(self).chatbox == old(self).chatbox,
            final(self).summary == old(self).summary,
            final(self).model_picker == old(self).model_picker,
            final(self).images == old(self).images,
    {
        let mut seed = String::new();
        core::mem::swap(&mut seed, &mut self.prepend_buf);
        self.messages[idx].content = seed;
        proof {
            assert(self.messages@[idx as int]@ =~= (MessageModel {
                content: old(self).prepend_buf@,
                ..old(self).messages@[idx as int]@
            }));
        }
    }

    /// The preview the session list shows: the newest message with any
    /// content, prefixed with "You: " when it is a user turn.
    pub fn last_message_contents(&self) -> (r: Option<String>)
        ensures
            r is Some <==> spec_last_message_contents(msgs_view(self.messages@)) is Some,
            r matches Some(s) ==> Some(s@) == spec_last_message_contents(
                msgs_view(self.messages@),
            ),
    {
        let n = self.messages.len();
        let mut i: usize = n;
        proof {
            assert(msgs_view(self.messages@).take(n as int) =~= msgs_view(self.messages@));
        }
        while i > 0
            invariant
                i <= n,
                n == self.messages@.len(),
                spec_last_message_contents(msgs_view(self.messages@))
                    == spec_last_message_contents(msgs_view(self.messages@).take(i as int)),
            decreases i,
        {
            let m = &self.messages[i - 1];
            proof {
                assert(msgs_view(self.messages@).take(i as int).last() == self.messages@[i - 1]@);
                assert(msgs_view(self.messages@).take(i as int).drop_last() =~= msgs_view(
                    self.messages@,
                ).take(i - 1));
            }
            if !m.content.as_str().is_empty() {
                if m.is_user() {
                    let mut s = "You: ".to_owned();
                    s.append(m.content.as_str());
                    return Some(s);
                } else {
                    return Some(m.content.clone());
                }
            }
            i -= 1;
        }
        None
    }

    /// Record that the retry affordance of the errored message at `idx` was
    /// used; the next `process_retry` acts on it.
    pub fn request_retry(&mut self, idx: usize)
        ensures
            final(self).spec_retry_idx() == Some(idx),
            final(self).spec_id() == old(self).spec_id(),
            final(self).spec_flower() == old(self).spec_flower(),
            final(self).spec_stop_raised() == old(self).spec_stop_raised(),
            final(self).chatbox == old(self).chatbox,
            final(self).messages == old(self).messages,
            final(self).summary == old(self).summary,
            final(self).model_picker == old(self).model_picker,
            final(self).images == old(self).images,
            final(self).prepend_buf == old(self).prepend_buf,
            final(self).wf() == old(self).wf(),
    {
        self.retry_message_idx = Some(idx);
    }
}

} // verus!
