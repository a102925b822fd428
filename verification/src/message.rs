//! One turn of a conversation, and the summary shown in the session list.

use vstd::prelude::*;

use crate::{upper, upper_exec};

verus! {

/// Who produced a message.
#[derive(Clone, Copy, Debug, PartialEq, Eq, Structural)]
pub enum Role {
    User,
    Assistant,
}

/// One turn in a conversation.
///
/// A message is created either when a prompt is sent (a user turn) or right
/// after, as the assistant placeholder that streaming chunks are appended to.
/// `is_generating` holds from creation of an assistant turn until its request
/// resolves; `is_error` holds when the request failed. The two never hold at
/// once.
pub struct Message {
    /// Accumulated text; grown incrementally while streaming, replaced
    /// wholesale on success, failure and regeneration.
    pub content: String,
    pub role: Role,
    /// The model that produced or will produce this message; empty for
    /// user turns unless echoed.
    pub model_name: String,
    /// True from creation until the owning request resolves.
    pub is_generating: bool,
    /// True when the owning request resolved to failure.
    pub is_error: bool,
    /// Creation time as a UNIX timestamp in seconds; used for export.
    pub time: i64,
    /// Paths of images attached by the user; user turns only.
    pub images: Vec<String>,
}

/// The views of a sequence of strings.
pub open spec fn strings_view(v: Seq<String>) -> Seq<Seq<char>> {
    v.map_values(|s: String| s@)
}

/// The abstract content of a message: its strings as character sequences.
#[verifier::ext_equal]
pub struct MessageModel {
    pub content: Seq<char>,
    pub role: Role,
    pub model_name: Seq<char>,
    pub is_generating: bool,
    pub is_error: bool,
    pub time: int,
    pub images: Seq<Seq<char>>,
}

impl View for Message {
    type V = MessageModel;

    open spec fn view(&self) -> MessageModel {
        MessageModel {
            content: self.content@,
            role: self.role,
            model_name: self.model_name@,
            is_generating: self.is_generating,
            is_error: self.is_error,
            time: self.time as int,
            images: strings_view(self.images@),
        }
    }
}

/// The abstract contents of a message list.
pub open spec fn msgs_view(msgs: Seq<Message>) -> Seq<MessageModel> {
    msgs.map_values(|m: Message| m@)
}

impl Message {
    /// A message never displays as generating and failed at once.
    pub open spec fn wf(self) -> bool {
        !(self.is_generating && self.is_error)
    }

    /// A finished user turn carrying `content` and `images`.
    pub fn user(content: String, model_name: String, images: Vec<String>, time: i64) -> (m: Self)
        ensures
            m.content == content,
            m.role == Role::User,
            m.model_name == model_name,
            !m.is_generating,
            !m.is_error,
            m.time == time,
            m.images@ == images@,
            m.wf(),
    {
        Message { content, role: Role::User, model_name, is_generating: false, is_error: false, time, images }
    }

    /// An assistant turn that a request is about to fill: marked as
    /// generating from the start.
    pub fn assistant(content: String, model_name: String, time: i64) -> (m: Self)
        ensures
            m.content == content,
            m.role == Role::Assistant,
            m.model_name == model_name,
            m.is_generating,
            !m.is_error,
            m.time == time,
            m.images@ == Seq::<String>::empty(),
            m.wf(),
    {
        Message {
            content,
            role: Role::Assistant,
            model_name,
            is_generating: true,
            is_error: false,
            time,
            images: Vec::new(),
        }
    }

    pub fn is_user(&self) -> (r: bool)
        ensures
            r == (self.role == Role::User),
    {
        self.role == Role::User
    }

    pub fn clone(&self) -> (m: Self)
        ensures
            m.content == self.content,
            m.role == self.role,
            m.model_name == self.model_name,
            m.is_generating == self.is_generating,
            m.is_error == self.is_error,
            m.time == self.time,
            m.images@ == self.images@,
    {
        let mut images: Vec<String> = Vec::new();
        let mut i: usize = 0;
        while i < self.images.len()
            invariant
                i <= self.images@.len(),
                images@ == self.images@.take(i as int),
            decreases self.images@.len() - i,
        {
            images.push(self.images[i].clone());
            i += 1;
            proof {
                assert(images@ =~= self.images@.take(i as int));
            }
        }
        proof {
            assert(self.images@.take(self.images@.len() as int) =~= self.images@);
        }
        Message {
            content: self.content.clone(),
            role: self.role,
            model_name: self.model_name.clone(),
            is_generating: self.is_generating,
            is_error: self.is_error,
            time: self.time,
            images,
        }
    }
}

/// The index just before which a summary of `s` is cut: at the first line
/// break, at the length bound, or at the end of `s`, whichever comes first.
pub open spec fn summary_cut(s: Seq<char>) -> int {
    choose_cut(s, 0)
}

/// The first index at or after `i` where the summary stops, capped at the
/// length bound.
pub closed spec fn choose_cut(s: Seq<char>, i: int) -> int
    decreases s.len() - i,
{
    if i >= s.len() || i >= MAX_SUMMARY_LENGTH {
        i
    } else if s[i] == '\n' {
        i
    } else {
        choose_cut(s, i + 1)
    }
}

/// Upper bound on a chat summary, in characters, before it is truncated.
pub const MAX_SUMMARY_LENGTH: usize = 24;

/// The summary of a prompt: its first line, truncated to the length bound,
/// with the first character raised to upper case and a trailing ellipsis
/// exactly when the cut happened at the length bound.
pub open spec fn spec_summary(s: Seq<char>) -> Seq<char> {
    let cut = summary_cut(s);
    let base = if cut == 0 {
        Seq::<char>::empty()
    } else {
        seq![upper(s[0])] + s.subrange(1, cut)
    };
    if cut == MAX_SUMMARY_LENGTH && s.len() > MAX_SUMMARY_LENGTH {
        base.push('\u{2026}')
    } else {
        base
    }
}

/// Make the short summary under which a chat is listed from its first
/// prompt.
pub fn make_summary(prompt: &str) -> (r: String)
    ensures
        r@ == spec_summary(prompt@),
{
    let n = prompt.unicode_len();
    let mut out: Vec<char> = Vec::new();
    let mut i: usize = 0;
    let mut stop = false;
    let mut ellipsis = false;
    while i < n && !stop
        invariant
            n == prompt@.len(),
            i <= n,
            i <= MAX_SUMMARY_LENGTH,
            ellipsis <==> stop && i == MAX_SUMMARY_LENGTH && i < n,
            choose_cut(prompt@, 0) == choose_cut(prompt@, i as int),
            stop ==> choose_cut(prompt@, i as int) == i,
            out@ == (if i == 0 {
                Seq::<char>::empty()
            } else {
                seq![upper(prompt@[0])] + prompt@.subrange(1, i as int)
            }),
        decreases n - i + (if stop { 0int } else { 1int }),
    {
        if i >= MAX_SUMMARY_LENGTH {
            stop = true;
            ellipsis = true;
        } else {
            let c = prompt.get_char(i);
            if c == '\n' {
                stop = true;
            } else {
                if i == 0 {
                    out.push(upper_exec(c));
                } else {
                    out.push(c);
                }
                i += 1;
                proof {
                    assert(out@ =~= seq![upper(prompt@[0])] + prompt@.subrange(1, i as int));
                }
            }
        }
    }
    if ellipsis {
        out.push('\u{2026}');
    }
    proof {
        if !stop {
            assert(choose_cut(prompt@, i as int) == i);
        }
        assert(summary_cut(prompt@) == i);
        assert(out@ =~= spec_summary(prompt@));
    }
    chars_to_string(&out)
}

/// Relies on `core::iter::Iterator::collect` for `String`:
/// collecting a vector's characters yields a string of them in order.
#[verifier::external_body]
pub fn chars_to_string(v: &Vec<char>) -> (s: String)
    ensures
        s@ == v@,
{
    v.iter().collect()
}

} // verus!
