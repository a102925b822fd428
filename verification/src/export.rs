//! Exporting a conversation: the formats offered, the plain-text rendering,
//! and a JSON rendering that parses back to the same messages.

use vstd::prelude::*;

use crate::message::{msgs_view, Message, MessageModel, Role};
use crate::timefmt::{rfc3339_of, rfc3339_of_secs};

verus! {

/// The file formats a conversation can be exported in.
#[derive(Clone, Copy, Debug, PartialEq, Eq, Structural)]
pub enum ChatExportFormat {
    Plaintext,
    Json,
    Ron,
}

impl ChatExportFormat {
    /// Every offered format, in display order.
    pub fn all() -> (r: [ChatExportFormat; 3])
        ensures
            r@ == seq![
                ChatExportFormat::Plaintext,
                ChatExportFormat::Json,
                ChatExportFormat::Ron,
            ],
    {
        let r = [ChatExportFormat::Plaintext, ChatExportFormat::Json, ChatExportFormat::Ron];
        proof {
            assert(r@ =~= seq![
                ChatExportFormat::Plaintext,
                ChatExportFormat::Json,
                ChatExportFormat::Ron,
            ]);
        }
        r
    }

    /// The file-name extensions offered for this format.
    pub fn extensions(self) -> (r: &'static [&'static str])
        ensures
            self is Plaintext ==> r@.len() == 1 && r@[0]@ == "txt"@,
            self is Json ==> r@.len() == 1 && r@[0]@ == "json"@,
            self is Ron ==> r@.len() == 1 && r@[0]@ == "ron"@,
    {
        match self {
            ChatExportFormat::Plaintext => &["txt"],
            ChatExportFormat::Json => &["json"],
            ChatExportFormat::Ron => &["ron"],
        }
    }

    /// The format's display name.
    pub fn label(self) -> (r: &'static str)
        ensures
            self is Plaintext ==> r@ == "Plaintext"@,
            self is Json ==> r@ == "Json"@,
            self is Ron ==> r@ == "Ron"@,
    {
        match self {
            ChatExportFormat::Plaintext => "Plaintext",
            ChatExportFormat::Json => "Json",
            ChatExportFormat::Ron => "Ron",
        }
    }
}

/// The value of a hexadecimal digit character, for the low escape range.
pub open spec fn hex_digit(v: int) -> char {
    if v == 0 {
        '0'
    } else if v == 1 {
        '1'
    } else if v == 2 {
        '2'
    } else if v == 3 {
        '3'
    } else if v == 4 {
        '4'
    } else if v == 5 {
        '5'
    } else if v == 6 {
        '6'
    } else if v == 7 {
        '7'
    } else if v == 8 {
        '8'
    } else if v == 9 {
        '9'
    } else if v == 10 {
        'a'
    } else if v == 11 {
        'b'
    } else if v == 12 {
        'c'
    } else if v == 13 {
        'd'
    } else if v == 14 {
        'e'
    } else {
        'f'
    }
}

/// Whether a character must be escaped inside a JSON string.
pub open spec fn needs_escape(c: char) -> bool {
    c == '"' || c == '\\' || (c as u32) < 32
}

/// One character's rendering inside a JSON string: itself, or a uniform
/// `\u00XX` escape for quotes, backslashes and control characters.
pub open spec fn esc_char(c: char) -> Seq<char> {
    if needs_escape(c) {
        seq![
            '\\',
            'u',
            '0',
            '0',
            hex_digit((c as u32) as int / 16),
            hex_digit((c as u32) as int % 16),
        ]
    } else {
        seq![c]
    }
}

/// A text's rendering inside a JSON string.
pub open spec fn esc(s: Seq<char>) -> Seq<char>
    decreases s.len(),
{
    if s.len() == 0 {
        Seq::empty()
    } else {
        esc_char(s[0]) + esc(s.skip(1))
    }
}

/// A JSON string: the escaped text between quotes.
pub open spec fn json_string(s: Seq<char>) -> Seq<char> {
    seq!['"'] + esc(s) + seq!['"']
}

/// The decimal digits of `n`, most significant first.
pub open spec fn dec_digits(n: nat) -> Seq<char>
    decreases n,
{
    if n < 10 {
        seq![hex_digit(n as int)]
    } else {
        dec_digits(n / 10) + seq![hex_digit((n % 10) as int)]
    }
}

/// A JSON integer: an optional sign and decimal digits.
pub open spec fn json_int(t: int) -> Seq<char> {
    if t < 0 {
        seq!['-'] + dec_digits((-t) as nat)
    } else {
        dec_digits(t as nat)
    }
}

/// A JSON boolean.
pub open spec fn json_bool(b: bool) -> Seq<char> {
    if b {
        "true"@
    } else {
        "false"@
    }
}

/// A role's name in the export.
pub open spec fn role_name(r: Role) -> Seq<char> {
    if r == Role::User {
        "User"@
    } else {
        "Assistant"@
    }
}

/// One message as a JSON object: role, model name, content, creation time
/// and error flag. Display state and image paths are not exported.
pub open spec fn json_msg(m: MessageModel) -> Seq<char> {
    "{\"role\":"@ + json_string(role_name(m.role)) + ",\"model_name\":"@ + json_string(
        m.model_name,
    ) + ",\"content\":"@ + json_string(m.content) + ",\"time\":"@ + json_int(m.time)
        + ",\"is_error\":"@ + json_bool(m.is_error) + seq!['}']
}

/// The messages after the first, each behind a comma.
pub open spec fn json_msgs_rest(ms: Seq<MessageModel>) -> Seq<char>
    decreases ms.len(),
{
    if ms.len() == 0 {
        Seq::empty()
    } else {
        seq![','] + json_msg(ms[0]) + json_msgs_rest(ms.skip(1))
    }
}

/// A message list as a JSON array of message objects.
pub open spec fn json_msgs(ms: Seq<MessageModel>) -> Seq<char> {
    if ms.len() == 0 {
        "[]"@
    } else {
        seq!['['] + json_msg(ms[0]) + json_msgs_rest(ms.skip(1)) + seq![']']
    }
}

fn hex_digit_exec(v: u32) -> (r: char)
    requires
        v < 16,
    ensures
        r == hex_digit(v as int),
{
    if v == 0 {
        '0'
    } else if v == 1 {
        '1'
    } else if v == 2 {
        '2'
    } else if v == 3 {
        '3'
    } else if v == 4 {
        '4'
    } else if v == 5 {
        '5'
    } else if v == 6 {
        '6'
    } else if v == 7 {
        '7'
    } else if v == 8 {
        '8'
    } else if v == 9 {
        '9'
    } else if v == 10 {
        'a'
    } else if v == 11 {
        'b'
    } else if v == 12 {
        'c'
    } else if v == 13 {
        'd'
    } else if v == 14 {
        'e'
    } else {
        'f'
    }
}

/// Escaping one more character extends the escaped text at the back.
proof fn lemma_esc_take(s: Seq<char>, k: int)
    requires
        0 <= k < s.len(),
    ensures
        esc(s.take(k + 1)) == esc(s.take(k)) + esc_char(s[k]),
    decreases k,
{
    if k == 0 {
        assert(s.take(1) =~= seq![s[0]]);
        assert(s.take(1).skip(1) =~= Seq::<char>::empty());
        assert(s.take(0) =~= Seq::<char>::empty());
        assert(esc(Seq::<char>::empty()) =~= Seq::<char>::empty());
        assert(esc(s.take(1)) =~= esc_char(s.take(1)[0]) + esc(s.take(1).skip(1)));
        assert(s.take(1)[0] == s[0]);
        assert(esc(s.take(1)) =~= esc(s.take(0)) + esc_char(s[0]));
    } else {
        lemma_esc_take(s.skip(1), k - 1);
        assert(s.take(k + 1)[0] == s[0]);
        assert(s.take(k)[0] == s[0]);
        assert(s.take(k + 1).skip(1) =~= s.skip(1).take(k));
        assert(s.take(k).skip(1) =~= s.skip(1).take(k - 1));
        assert(s.skip(1)[k - 1] == s[k]);
        assert(esc_char(s[0]) + (esc(s.skip(1).take(k - 1)) + esc_char(s[k])) =~= esc(s.take(k))
            + esc_char(s[k]));
    }
}

/// Append the plain characters of `s`.
fn push_chars(out: &mut Vec<char>, s: &str)
    ensures
        final(out)@ == old(out)@ + s@,
{
    let n = s.unicode_len();
    let mut k: usize = 0;
    proof {
        assert(old(out)@ + s@.take(0) =~= old(out)@);
    }
    while k < n
        invariant
            n == s@.len(),
            k <= n,
            out@ == old(out)@ + s@.take(k as int),
        decreases n - k,
    {
        out.push(s.get_char(k));
        k += 1;
        proof {
            assert(old(out)@ + s@.take(k as int) =~= (old(out)@ + s@.take(k - 1)).push(
                s@[k - 1],
            ));
        }
    }
    proof {
        assert(s@.take(n as int) =~= s@);
    }
}

/// Append one character in its JSON-string rendering.
fn push_esc_char(out: &mut Vec<char>, c: char)
    ensures
        final(out)@ == old(out)@ + esc_char(c),
{
    if c == '"' || c == '\\' || (c as u32) < 32 {
        out.push('\\');
        out.push('u');
        out.push('0');
        out.push('0');
        out.push(hex_digit_exec((c as u32) / 16));
        out.push(hex_digit_exec((c as u32) % 16));
        proof {
            assert(final(out)@ =~= old(out)@ + esc_char(c));
        }
    } else {
        out.push(c);
        proof {
            assert(final(out)@ =~= old(out)@ + esc_char(c));
        }
    }
}

/// Append `s` as a JSON string, quotes and escapes included.
fn push_json_string(out: &mut Vec<char>, s: &str)
    ensures
        final(out)@ == old(out)@ + json_string(s@),
{
    out.push('"');
    let n = s.unicode_len();
    let mut k: usize = 0;
    let ghost base = out@;
    proof {
        assert(base + esc(s@.take(0)) =~= base);
    }
    while k < n
        invariant
            n == s@.len(),
            k <= n,
            out@ == base + esc(s@.take(k as int)),
        decreases n - k,
    {
        push_esc_char(out, s.get_char(k));
        k += 1;
        proof {
            lemma_esc_take(s@, k - 1);
            assert(base + esc(s@.take(k as int)) =~= (base + esc(s@.take(k - 1))) + esc_char(
                s@[k - 1],
            ));
        }
    }
    out.push('"');
    proof {
        assert(s@.take(n as int) =~= s@);
        assert(final(out)@ =~= old(out)@ + json_string(s@));
    }
}

/// Append the decimal digits of `n`.
fn push_dec(out: &mut Vec<char>, n: u64)
    ensures
        final(out)@ == old(out)@ + dec_digits(n as nat),
    decreases n,
{
    if n < 10 {
        out.push(hex_digit_exec(n as u32));
        proof {
            assert(final(out)@ =~= old(out)@ + dec_digits(n as nat));
        }
    } else {
        push_dec(out, n / 10);
        out.push(hex_digit_exec((n % 10) as u32));
        proof {
            assert(final(out)@ =~= old(out)@ + dec_digits(n as nat));
        }
    }
}

/// Append a JSON integer.
fn push_int(out: &mut Vec<char>, t: i64)
    ensures
        final(out)@ == old(out)@ + json_int(t as int),
{
    if t < 0 {
        out.push('-');
        let magnitude: u64 = (-(t as i128)) as u64;
        proof {
            assert(magnitude as nat == (-(t as int)) as nat);
        }
        push_dec(out, magnitude);
        proof {
            assert(final(out)@ =~= old(out)@ + json_int(t as int));
        }
    } else {
        push_dec(out, t as u64);
    }
}

/// Append a JSON boolean.
fn push_bool(out: &mut Vec<char>, b: bool)
    ensures
        final(out)@ == old(out)@ + json_bool(b),
{
    if b {
        push_chars(out, "true");
    } else {
        push_chars(out, "false");
    }
}

/// Append one message as a JSON object.
fn push_msg(out: &mut Vec<char>, m: &Message)
    ensures
        final(out)@ == old(out)@ + json_msg(m@),
{
    push_chars(out, "{\"role\":");
    match m.role {
        Role::User => push_json_string(out, "User"),
        Role::Assistant => push_json_string(out, "Assistant"),
    }
    push_chars(out, ",\"model_name\":");
    push_json_string(out, m.model_name.as_str());
    push_chars(out, ",\"content\":");
    push_json_string(out, m.content.as_str());
    push_chars(out, ",\"time\":");
    push_int(out, m.time);
    push_chars(out, ",\"is_error\":");
    push_bool(out, m.is_error);
    out.push('}');
    proof {
        assert(final(out)@ =~= old(out)@ + json_msg(m@));
    }
}

/// Appending one more message extends the comma-separated tail at the back.
proof fn lemma_json_msgs_rest_take(ms: Seq<MessageModel>, k: int)
    requires
        0 <= k < ms.len(),
    ensures
        json_msgs_rest(ms.take(k + 1)) == json_msgs_rest(ms.take(k)) + seq![','] + json_msg(
            ms[k],
        ),
    decreases k,
{
    if k == 0 {
        assert(ms.take(1) =~= seq![ms[0]]);
        assert(ms.take(1).skip(1) =~= Seq::<MessageModel>::empty());
        assert(ms.take(0) =~= Seq::<MessageModel>::empty());
        assert(json_msgs_rest(ms.take(1)) =~= json_msgs_rest(ms.take(0)) + seq![','] + json_msg(
            ms[0],
        ));
    } else {
        lemma_json_msgs_rest_take(ms.skip(1), k - 1);
        assert(ms.take(k + 1)[0] == ms[0]);
        assert(ms.take(k)[0] == ms[0]);
        assert(ms.take(k + 1).skip(1) =~= ms.skip(1).take(k));
        assert(ms.take(k).skip(1) =~= ms.skip(1).take(k - 1));
        assert(ms.skip(1)[k - 1] == ms[k]);
        assert(seq![','] + json_msg(ms[0]) + (json_msgs_rest(ms.skip(1).take(k - 1)) + seq![',']
            + json_msg(ms[k])) =~= json_msgs_rest(ms.take(k)) + seq![','] + json_msg(ms[k]));
    }
}

/// Render a message list as JSON text. The result parses back, through
/// `parse_json`, to the same sequence of role, model name, content, time
/// and error-flag tuples.
pub fn to_json(messages: &Vec<Message>) -> (r: String)
    ensures
        r@ == json_msgs(msgs_view(messages@)),
{
    let ghost ms = msgs_view(messages@);
    let mut out: Vec<char> = Vec::new();
    if messages.len() == 0 {
        push_chars(&mut out, "[]");
        proof {
            reveal_strlit("[]");
            assert(out@ =~= json_msgs(ms));
        }
        return crate::message::chars_to_string(&out);
    }
    out.push('[');
    push_msg(&mut out, &messages[0]);
    let ghost base = out@;
    let mut k: usize = 1;
    proof {
        assert(ms.skip(1).take(0) =~= Seq::<MessageModel>::empty());
        assert(base + json_msgs_rest(ms.skip(1).take(0)) =~= base);
    }
    while k < messages.len()
        invariant
            1 <= k <= messages@.len(),
            ms == msgs_view(messages@),
            base == seq!['['] + json_msg(ms[0]),
            out@ == base + json_msgs_rest(ms.skip(1).take(k - 1)),
        decreases messages@.len() - k,
    {
        out.push(',');
        push_msg(&mut out, &messages[k]);
        k += 1;
        proof {
            lemma_json_msgs_rest_take(ms.skip(1), k - 2);
            assert(ms.skip(1)[k - 2] == ms[k - 1]);
            assert(base + json_msgs_rest(ms.skip(1).take(k - 1)) =~= (base + json_msgs_rest(
                ms.skip(1).take(k - 2),
            )).push(',') + json_msg(ms[k - 1]));
        }
    }
    out.push(']');
    proof {
        assert(ms.skip(1).take(messages@.len() - 1) =~= ms.skip(1));
        assert(out@ =~= json_msgs(ms));
    }
    crate::message::chars_to_string(&out)
}

/// The premise under which the parsers owe an exact answer for one message:
/// the input continues with the message's rendering, and the time fits the
/// signed range the encoder accepts.
pub open spec fn msg_at(v: Seq<char>, i: int, m: MessageModel, rest: Seq<char>) -> bool {
    &&& v.skip(i) == json_msg(m) + rest
    &&& i64::MIN <= m.time <= i64::MAX
}

/// The rendering of a message, regrouped the way the parser consumes it.
proof fn lemma_msg_grouping(v: Seq<char>, i: int, m: MessageModel, rest: Seq<char>)
    requires
        0 <= i <= v.len(),
        msg_at(v, i, m, rest),
    ensures
        v.skip(i) == "{\"role\":\""@ + (esc(role_name(m.role)) + seq!['"'] + (",\"model_name\":\""@
            + (esc(m.model_name) + seq!['"'] + (",\"content\":\""@ + (esc(m.content) + seq!['"']
            + (",\"time\":"@ + (json_int(m.time) + (",\"is_error\":"@ + (json_bool(m.is_error)
            + (seq!['}'] + rest)))))))))),
{
    reveal_strlit("{\"role\":");
    reveal_strlit("{\"role\":\"");
    reveal_strlit(",\"model_name\":");
    reveal_strlit(",\"model_name\":\"");
    reveal_strlit(",\"content\":");
    reveal_strlit(",\"content\":\"");
    reveal_strlit(",\"time\":");
    reveal_strlit(",\"is_error\":");
    assert(json_msg(m) + rest =~= "{\"role\":\""@ + (esc(role_name(m.role)) + seq!['"'] + (
    ",\"model_name\":\""@ + (esc(m.model_name) + seq!['"'] + (",\"content\":\""@ + (esc(m.content)
        + seq!['"'] + (",\"time\":"@ + (json_int(m.time) + (",\"is_error\":"@ + (json_bool(
        m.is_error,
    ) + (seq!['}'] + rest)))))))))));
}

/// Parse one message object. On the rendering of a message followed by
/// anything, returns exactly that message — with display state and images at
/// their defaults — and stops right behind the rendering.
#[verifier::rlimit(60)]
fn parse_msg(v: &Vec<char>, i: usize) -> (r: Option<(Message, usize)>)
    requires
        i <= v@.len(),
    ensures
        r matches Some(p) ==> i < p.1 <= v@.len(),
        forall|m: MessageModel, rest: Seq<char>|
            msg_at(v@, i as int, m, rest) ==> (r matches Some(p) && p.0@ == export_norm(m) && p.1
                == i + json_msg(m).len()),
{
    proof {
        reveal_strlit("{\"role\":\"");
        reveal_strlit(",\"model_name\":\"");
        reveal_strlit(",\"content\":\"");
        reveal_strlit(",\"time\":");
        reveal_strlit(",\"is_error\":");
        reveal_strlit("}");
        reveal_strlit("User");
        reveal_strlit("Assistant");
        assert forall|m: MessageModel, rest: Seq<char>|
            msg_at(v@, i as int, m, rest) implies v@.skip(i as int) == "{\"role\":\""@ + (esc(
            role_name(m.role),
        ) + seq!['"'] + msg_tail1(m, rest)) by {
            lemma_msg_grouping(v@, i as int, m, rest);
        }
    }
    let i1 = match expect_chars(v, i, "{\"role\":\"") {
        Some(j) => j,
        None => {
            proof {
                assert forall|m: MessageModel, rest: Seq<char>|
                    !msg_at(v@, i as int, m, rest) by {
                    if msg_at(v@, i as int, m, rest) {
                        lemma_skip_prefix(
                            v@,
                            i as int,
                            "{\"role\":\""@,
                            esc(role_name(m.role)) + seq!['"'] + msg_tail1(m, rest),
                        );
                    }
                }
            }
            return None;
        },
    };
    proof {
        assert forall|m: MessageModel, rest: Seq<char>|
            msg_at(v@, i as int, m, rest) implies v@.skip(i1 as int) == esc(role_name(m.role))
            + seq!['"'] + msg_tail1(m, rest) by {
            lemma_skip_prefix(
                v@,
                i as int,
                "{\"role\":\""@,
                esc(role_name(m.role)) + seq!['"'] + msg_tail1(m, rest),
            );
            assert(esc(role_name(m.role)) + seq!['"'] + msg_tail1(m, rest) =~= esc(role_name(
                m.role,
            )) + seq!['"'] + msg_tail1(m, rest));
        }
    }
    let role_chars = match parse_string_rec(v, i1) {
        Some(p) => p,
        None => {
            proof {
                assert forall|m: MessageModel, rest: Seq<char>|
                    !msg_at(v@, i as int, m, rest) by {
                    if msg_at(v@, i as int, m, rest) {
                        assert(v@.skip(i1 as int) == esc(role_name(m.role)) + seq!['"']
                            + msg_tail1(m, rest));
                    }
                }
            }
            return None;
        },
    };
    let role_str = crate::message::chars_to_string(&role_chars.0);
    let role: Role = if crate::text::str_eq(role_str.as_str(), "User") {
        Role::User
    } else if crate::text::str_eq(role_str.as_str(), "Assistant") {
        Role::Assistant
    } else {
        proof {
            assert forall|m: MessageModel, rest: Seq<char>|
                !msg_at(v@, i as int, m, rest) by {
                if msg_at(v@, i as int, m, rest) {
                    assert(role_chars.0@ == role_name(m.role));
                }
            }
        }
        return None;
    };
    let i2 = role_chars.1;
    proof {
        assert forall|m: MessageModel, rest: Seq<char>|
            msg_at(v@, i as int, m, rest) implies role == m.role && v@.skip(i2 as int)
            == ",\"model_name\":\""@ + (esc(m.model_name) + seq!['"'] + msg_tail2(m, rest)) by {
            assert(role_chars.0@ == role_name(m.role));
            if m.role == Role::User {
                assert(role_str@ == "User"@);
            } else {
                assert(role_str@ == "Assistant"@);
                assert(role_str@.len() == 9);
                assert(role_str@ != "User"@);
            }
            lemma_skip_prefix(
                v@,
                i1 as int,
                esc(role_name(m.role)) + seq!['"'],
                msg_tail1(m, rest),
            );
            assert(v@.skip(i1 + esc(role_name(m.role)).len() + 1) == msg_tail1(m, rest));
        }
    }
    let i3 = match expect_chars(v, i2, ",\"model_name\":\"") {
        Some(j) => j,
        None => {
            proof {
                assert forall|m: MessageModel, rest: Seq<char>|
                    !msg_at(v@, i as int, m, rest) by {
                    if msg_at(v@, i as int, m, rest) {
                        lemma_skip_prefix(
                            v@,
                            i2 as int,
                            ",\"model_name\":\""@,
                            esc(m.model_name) + seq!['"'] + msg_tail2(m, rest),
                        );
                    }
                }
            }
            return None;
        },
    };
    proof {
        assert forall|m: MessageModel, rest: Seq<char>|
            msg_at(v@, i as int, m, rest) implies v@.skip(i3 as int) == esc(m.model_name)
            + seq!['"'] + msg_tail2(m, rest) by {
            lemma_skip_prefix(
                v@,
                i2 as int,
                ",\"model_name\":\""@,
                esc(m.model_name) + seq!['"'] + msg_tail2(m, rest),
            );
        }
    }
    let name_chars = match parse_string_rec(v, i3) {
        Some(p) => p,
        None => {
            proof {
                assert forall|m: MessageModel, rest: Seq<char>|
                    !msg_at(v@, i as int, m, rest) by {
                    if msg_at(v@, i as int, m, rest) {
                        assert(v@.skip(i3 as int) == esc(m.model_name) + seq!['"'] + msg_tail2(
                            m,
                            rest,
                        ));
                    }
                }
            }
            return None;
        },
    };
    let model_name = crate::message::chars_to_string(&name_chars.0);
    let i4 = name_chars.1;
    proof {
        assert forall|m: MessageModel, rest: Seq<char>|
            msg_at(v@, i as int, m, rest) implies model_name@ == m.model_name && v@.skip(i4 as int)
            == ",\"content\":\""@ + (esc(m.content) + seq!['"'] + msg_tail3(m, rest)) by {
            lemma_skip_prefix(v@, i3 as int, esc(m.model_name) + seq!['"'], msg_tail2(m, rest));
        }
    }
    let i5 = match expect_chars(v, i4, ",\"content\":\"") {
        Some(j) => j,
        None => {
            proof {
                assert forall|m: MessageModel, rest: Seq<char>|
                    !msg_at(v@, i as int, m, rest) by {
                    if msg_at(v@, i as int, m, rest) {
                        lemma_skip_prefix(
                            v@,
                            i4 as int,
                            ",\"content\":\""@,
                            esc(m.content) + seq!['"'] + msg_tail3(m, rest),
                        );
                    }
                }
            }
            return None;
        },
    };
    proof {
        assert forall|m: MessageModel, rest: Seq<char>|
            msg_at(v@, i as int, m, rest) implies v@.skip(i5 as int) == esc(m.content) + seq!['"']
            + msg_tail3(m, rest) by {
            lemma_skip_prefix(
                v@,
                i4 as int,
                ",\"content\":\""@,
                esc(m.content) + seq!['"'] + msg_tail3(m, rest),
            );
        }
    }
    let content_chars = match parse_string_rec(v, i5) {
        Some(p) => p,
        None => {
            proof {
                assert forall|m: MessageModel, rest: Seq<char>|
                    !msg_at(v@, i as int, m, rest) by {
                    if msg_at(v@, i as int, m, rest) {
                        assert(v@.skip(i5 as int) == esc(m.content) + seq!['"'] + msg_tail3(
                            m,
                            rest,
                        ));
                    }
                }
            }
            return None;
        },
    };
    let content = crate::message::chars_to_string(&content_chars.0);
    let i6 = content_chars.1;
    proof {
        assert forall|m: MessageModel, rest: Seq<char>|
            msg_at(v@, i as int, m, rest) implies content@ == m.content && v@.skip(i6 as int)
            == ",\"time\":"@ + (json_int(m.time) + msg_tail4(m, rest)) by {
            lemma_skip_prefix(v@, i5 as int, esc(m.content) + seq!['"'], msg_tail3(m, rest));
        }
    }
    let i7 = match expect_chars(v, i6, ",\"time\":") {
        Some(j) => j,
        None => {
            proof {
                assert forall|m: MessageModel, rest: Seq<char>|
                    !msg_at(v@, i as int, m, rest) by {
                    if msg_at(v@, i as int, m, rest) {
                        lemma_skip_prefix(
                            v@,
                            i6 as int,
                            ",\"time\":"@,
                            json_int(m.time) + msg_tail4(m, rest),
                        );
                    }
                }
            }
            return None;
        },
    };
    proof {
        assert forall|m: MessageModel, rest: Seq<char>|
            msg_at(v@, i as int, m, rest) implies v@.skip(i7 as int) == json_int(m.time)
            + msg_tail4(m, rest) && (msg_tail4(m, rest).len() == 0 || !is_dec_digit(
            msg_tail4(m, rest)[0],
        )) by {
            lemma_skip_prefix(v@, i6 as int, ",\"time\":"@, json_int(m.time) + msg_tail4(m, rest));
            assert(msg_tail4(m, rest)[0] == ',');
        }
    }
    let time_parsed = match parse_i64(v, i7) {
        Some(p) => p,
        None => {
            proof {
                assert forall|m: MessageModel, rest: Seq<char>|
                    !msg_at(v@, i as int, m, rest) by {
                    if msg_at(v@, i as int, m, rest) {
                        assert(json_int((m.time as i64) as int) == json_int(m.time));
                    }
                }
            }
            return None;
        },
    };
    let time = time_parsed.0;
    let i8 = time_parsed.1;
    proof {
        assert forall|m: MessageModel, rest: Seq<char>|
            msg_at(v@, i as int, m, rest) implies time as int == m.time && v@.skip(i8 as int)
            == ",\"is_error\":"@ + (json_bool(m.is_error) + (seq!['}'] + rest)) by {
            assert(json_int((m.time as i64) as int) == json_int(m.time));
            lemma_skip_prefix(v@, i7 as int, json_int(m.time), msg_tail4(m, rest));
        }
    }
    let i9 = match expect_chars(v, i8, ",\"is_error\":") {
        Some(j) => j,
        None => {
            proof {
                assert forall|m: MessageModel, rest: Seq<char>|
                    !msg_at(v@, i as int, m, rest) by {
                    if msg_at(v@, i as int, m, rest) {
                        lemma_skip_prefix(
                            v@,
                            i8 as int,
                            ",\"is_error\":"@,
                            json_bool(m.is_error) + (seq!['}'] + rest),
                        );
                    }
                }
            }
            return None;
        },
    };
    proof {
        assert forall|m: MessageModel, rest: Seq<char>|
            msg_at(v@, i as int, m, rest) implies v@.skip(i9 as int) == json_bool(m.is_error) + (
        seq!['}'] + rest) by {
            lemma_skip_prefix(
                v@,
                i8 as int,
                ",\"is_error\":"@,
                json_bool(m.is_error) + (seq!['}'] + rest),
            );
        }
    }
    let err_parsed = match parse_bool(v, i9) {
        Some(p) => p,
        None => {
            proof {
                assert forall|m: MessageModel, rest: Seq<char>|
                    !msg_at(v@, i as int, m, rest) by {
                    if msg_at(v@, i as int, m, rest) {
                        assert(v@.skip(i9 as int) == json_bool(m.is_error) + (seq!['}'] + rest));
                    }
                }
            }
            return None;
        },
    };
    let is_error = err_parsed.0;
    let i10 = err_parsed.1;
    proof {
        assert forall|m: MessageModel, rest: Seq<char>|
            msg_at(v@, i as int, m, rest) implies is_error == m.is_error && v@.skip(i10 as int)
            == seq!['}'] + rest by {
            lemma_skip_prefix(v@, i9 as int, json_bool(m.is_error), seq!['}'] + rest);
        }
    }
    if i10 >= v.len() || v[i10] != '}' {
        proof {
            assert forall|m: MessageModel, rest: Seq<char>|
                !msg_at(v@, i as int, m, rest) by {
                if msg_at(v@, i as int, m, rest) {
                    assert(v@.skip(i10 as int)[0] == v@[i10 as int]);
                    assert(v@.skip(i10 as int)[0] == '}');
                }
            }
        }
        return None;
    }
    let msg = Message {
        content,
        role,
        model_name,
        is_generating: false,
        is_error,
        time,
        images: Vec::new(),
    };
    proof {
        assert forall|m: MessageModel, rest: Seq<char>|
            msg_at(v@, i as int, m, rest) implies msg@ == export_norm(m) && i10 + 1 == i
            + json_msg(m).len() by {
            assert(crate::message::strings_view(Seq::<String>::empty())
                =~= Seq::<Seq<char>>::empty());
            assert(msg@ =~= export_norm(m));
            assert(v@.skip(i as int).len() == v@.len() - i);
            assert(v@.skip(i10 as int).len() == v@.len() - i10);
            assert((json_msg(m) + rest).len() == json_msg(m).len() + rest.len());
            assert((seq!['}'] + rest).len() == 1 + rest.len());
        }
    }
    Some((msg, i10 + 1))
}

/// Each tail of a message rendering, as the parser reaches it.
pub open spec fn msg_tail1(m: MessageModel, rest: Seq<char>) -> Seq<char> {
    ",\"model_name\":\""@ + (esc(m.model_name) + seq!['"'] + msg_tail2(m, rest))
}

pub open spec fn msg_tail2(m: MessageModel, rest: Seq<char>) -> Seq<char> {
    ",\"content\":\""@ + (esc(m.content) + seq!['"'] + msg_tail3(m, rest))
}

pub open spec fn msg_tail3(m: MessageModel, rest: Seq<char>) -> Seq<char> {
    ",\"time\":"@ + (json_int(m.time) + msg_tail4(m, rest))
}

pub open spec fn msg_tail4(m: MessageModel, rest: Seq<char>) -> Seq<char> {
    ",\"is_error\":"@ + (json_bool(m.is_error) + (seq!['}'] + rest))
}

/// One message as a line of plain text: time, role, model and content.
/// Line breaks inside the content are left as they are.
pub open spec fn plain_line(m: MessageModel) -> Seq<char> {
    rfc3339_of(m.time) + " - "@ + role_name(m.role) + " ("@ + m.model_name + "): "@ + m.content
        + seq!['\n']
}

/// A message list as plain text, one line per message.
pub open spec fn plain_text(ms: Seq<MessageModel>) -> Seq<char>
    decreases ms.len(),
{
    if ms.len() == 0 {
        Seq::empty()
    } else {
        plain_line(ms[0]) + plain_text(ms.skip(1))
    }
}

/// One more line extends the text at the back.
proof fn lemma_plain_text_take(ms: Seq<MessageModel>, k: int)
    requires
        0 <= k < ms.len(),
    ensures
        plain_text(ms.take(k + 1)) == plain_text(ms.take(k)) + plain_line(ms[k]),
    decreases k,
{
    if k == 0 {
        assert(ms.take(1) =~= seq![ms[0]]);
        assert(ms.take(1).skip(1) =~= Seq::<MessageModel>::empty());
        assert(ms.take(0) =~= Seq::<MessageModel>::empty());
        assert(plain_text(ms.take(1)) =~= plain_text(ms.take(0)) + plain_line(ms[0]));
    } else {
        lemma_plain_text_take(ms.skip(1), k - 1);
        assert(ms.take(k + 1)[0] == ms[0]);
        assert(ms.take(k)[0] == ms[0]);
        assert(ms.take(k + 1).skip(1) =~= ms.skip(1).take(k));
        assert(ms.take(k).skip(1) =~= ms.skip(1).take(k - 1));
        assert(ms.skip(1)[k - 1] == ms[k]);
        assert(plain_line(ms[0]) + (plain_text(ms.skip(1).take(k - 1)) + plain_line(ms[k])) =~=
        plain_text(ms.take(k)) + plain_line(ms[k]));
    }
}

/// Render a message list as plain text, one `time - role (model): content`
/// line per message. Message times must lie in the range the calendar
/// rendering accepts.
pub fn format_plaintext(messages: &Vec<Message>) -> (r: String)
    requires
        forall|j: int|
            0 <= j < messages@.len() ==> 0 <= (#[trigger] messages@[j]).time
                <= 100_000_000_000i64,
    ensures
        r@ == plain_text(msgs_view(messages@)),
{
    let ghost ms = msgs_view(messages@);
    let mut out: Vec<char> = Vec::new();
    let mut k: usize = 0;
    proof {
        assert(plain_text(ms.take(0)) =~= Seq::<char>::empty());
    }
    while k < messages.len()
        invariant
            k <= messages@.len(),
            ms == msgs_view(messages@),
            forall|j: int|
                0 <= j < messages@.len() ==> 0 <= (#[trigger] messages@[j]).time
                    <= 100_000_000_000i64,
            out@ == plain_text(ms.take(k as int)),
        decreases messages@.len() - k,
    {
        let m = &messages[k];
        let ghost base = out@;
        let stamp = match rfc3339_of_secs(m.time) {
            Some(ts) => ts,
            None => {
                proof {
                    assert(false);
                }
                String::new()
            },
        };
        push_chars(&mut out, stamp.as_str());
        push_chars(&mut out, " - ");
        match m.role {
            Role::User => push_chars(&mut out, "User"),
            Role::Assistant => push_chars(&mut out, "Assistant"),
        }
        push_chars(&mut out, " (");
        push_chars(&mut out, m.model_name.as_str());
        push_chars(&mut out, "): ");
        push_chars(&mut out, m.content.as_str());
        out.push('\n');
        k += 1;
        proof {
            lemma_plain_text_take(ms, k - 1);
            assert(out@ =~= base + plain_line(ms[k - 1]));
        }
    }
    proof {
        assert(ms.take(messages@.len() as int) =~= ms);
    }
    crate::message::chars_to_string(&out)
}

/// Whether every time in `ms` fits the signed range the encoder accepts.
pub open spec fn times_ok(ms: Seq<MessageModel>) -> bool {
    forall|k: int| 0 <= k < ms.len() ==> i64::MIN <= (#[trigger] ms[k]).time <= i64::MAX
}

/// The premise under which the tail parser owes an exact answer: the input
/// continues with the tail rendering of `ms` and the closing bracket.
pub open spec fn msgs_rest_at(v: Seq<char>, i: int, ms: Seq<MessageModel>, rest: Seq<char>) -> bool {
    &&& v.skip(i) == json_msgs_rest(ms) + seq![']'] + rest
    &&& times_ok(ms)
}

/// Parse the comma-separated messages after the first, up to and including
/// the closing bracket.
fn parse_msgs_rest(v: &Vec<char>, i: usize) -> (r: Option<(Vec<Message>, usize)>)
    requires
        i <= v@.len(),
    ensures
        r matches Some(p) ==> i < p.1 <= v@.len(),
        forall|ms: Seq<MessageModel>, rest: Seq<char>|
            msgs_rest_at(v@, i as int, ms, rest) ==> (r matches Some(p) && msgs_view(p.0@)
                == ms.map_values(|m: MessageModel| export_norm(m)) && p.1 == i + json_msgs_rest(
                ms,
            ).len() + 1),
    decreases v@.len() - i,
{
    if i >= v.len() {
        proof {
            assert forall|ms: Seq<MessageModel>, rest: Seq<char>|
                !msgs_rest_at(v@, i as int, ms, rest) by {
                if msgs_rest_at(v@, i as int, ms, rest) {
                    assert(v@.skip(i as int).len() == v@.len() - i);
                    assert((json_msgs_rest(ms) + seq![']'] + rest).len() >= 1);
                }
            }
        }
        return None;
    }
    let c = v[i];
    proof {
        assert(v@.skip(i as int)[0] == v@[i as int]);
    }
    if c == ']' {
        proof {
            assert forall|ms: Seq<MessageModel>, rest: Seq<char>|
                msgs_rest_at(v@, i as int, ms, rest) implies ms.len() == 0 && ms.map_values(
                |m: MessageModel| export_norm(m),
            ) =~= Seq::<MessageModel>::empty() && json_msgs_rest(ms).len() == 0 by {
                if ms.len() > 0 {
                    assert((json_msgs_rest(ms) + seq![']'] + rest)[0] == json_msgs_rest(ms)[0]);
                    assert(json_msgs_rest(ms)[0] == ',');
                }
            }
            assert(msgs_view(Seq::<Message>::empty()) =~= Seq::<MessageModel>::empty());
        }
        return Some((Vec::new(), i + 1));
    }
    if c != ',' {
        proof {
            assert forall|ms: Seq<MessageModel>, rest: Seq<char>|
                !msgs_rest_at(v@, i as int, ms, rest) by {
                if msgs_rest_at(v@, i as int, ms, rest) {
                    if ms.len() > 0 {
                        assert((json_msgs_rest(ms) + seq![']'] + rest)[0] == json_msgs_rest(
                            ms,
                        )[0]);
                        assert(json_msgs_rest(ms)[0] == ',');
                    } else {
                        assert((json_msgs_rest(ms) + seq![']'] + rest)[0] == ']');
                    }
                }
            }
        }
        return None;
    }
    proof {
        assert forall|ms: Seq<MessageModel>, rest: Seq<char>|
            msgs_rest_at(v@, i as int, ms, rest) implies ms.len() > 0 && msg_at(
            v@,
            i + 1,
            ms[0],
            json_msgs_rest(ms.skip(1)) + seq![']'] + rest,
        ) by {
            if ms.len() == 0 {
                assert((json_msgs_rest(ms) + seq![']'] + rest)[0] == ']');
            }
            assert(json_msgs_rest(ms) + seq![']'] + rest =~= seq![','] + (json_msg(ms[0]) + (
            json_msgs_rest(ms.skip(1)) + seq![']'] + rest)));
            lemma_skip_prefix(
                v@,
                i as int,
                seq![','],
                json_msg(ms[0]) + (json_msgs_rest(ms.skip(1)) + seq![']'] + rest),
            );
        }
    }
    let first = match parse_msg(v, i + 1) {
        Some(p) => p,
        None => {
            proof {
                assert forall|ms: Seq<MessageModel>, rest: Seq<char>|
                    !msgs_rest_at(v@, i as int, ms, rest) by {
                    if msgs_rest_at(v@, i as int, ms, rest) {
                        assert(msg_at(
                            v@,
                            i + 1,
                            ms[0],
                            json_msgs_rest(ms.skip(1)) + seq![']'] + rest,
                        ));
                    }
                }
            }
            return None;
        },
    };
    proof {
        assert forall|ms: Seq<MessageModel>, rest: Seq<char>|
            msgs_rest_at(v@, i as int, ms, rest) implies msgs_rest_at(
            v@,
            first.1 as int,
            ms.skip(1),
            rest,
        ) && first.0@ == export_norm(ms[0]) by {
            assert(msg_at(v@, i + 1, ms[0], json_msgs_rest(ms.skip(1)) + seq![']'] + rest));
            lemma_skip_prefix(
                v@,
                i + 1,
                json_msg(ms[0]),
                json_msgs_rest(ms.skip(1)) + seq![']'] + rest,
            );
            assert(times_ok(ms.skip(1)));
        }
    }
    let rec = match parse_msgs_rest(v, first.1) {
        Some(p) => p,
        None => {
            proof {
                assert forall|ms: Seq<MessageModel>, rest: Seq<char>|
                    !msgs_rest_at(v@, i as int, ms, rest) by {
                    if msgs_rest_at(v@, i as int, ms, rest) {
                        assert(msgs_rest_at(v@, first.1 as int, ms.skip(1), rest));
                    }
                }
            }
            return None;
        },
    };
    let mut out: Vec<Message> = Vec::new();
    out.push(first.0);
    let mut tail = rec.0;
    let ghost tail0 = tail@;
    out.append(&mut tail);
    proof {
        assert(out@ =~= seq![first.0] + tail0);
        assert forall|ms: Seq<MessageModel>, rest: Seq<char>|
            msgs_rest_at(v@, i as int, ms, rest) implies msgs_view(out@) == ms.map_values(
            |m: MessageModel| export_norm(m),
        ) && rec.1 == i + json_msgs_rest(ms).len() + 1 by {
            assert(msgs_rest_at(v@, first.1 as int, ms.skip(1), rest));
            assert(msgs_view(tail0) == ms.skip(1).map_values(|m: MessageModel| export_norm(m)));
            assert(msgs_view(out@) =~= seq![first.0@] + msgs_view(tail0));
            assert(ms.map_values(|m: MessageModel| export_norm(m)) =~= seq![export_norm(ms[0])]
                + ms.skip(1).map_values(|m: MessageModel| export_norm(m)));
            assert(msgs_view(out@) =~= ms.map_values(|m: MessageModel| export_norm(m)));
            assert(json_msgs_rest(ms).len() == 1 + json_msg(ms[0]).len() + json_msgs_rest(
                ms.skip(1),
            ).len());
        }
    }
    Some((out, rec.1))
}

/// Turn a string into its characters.
fn str_to_chars(s: &str) -> (v: Vec<char>)
    ensures
        v@ == s@,
{
    let n = s.unicode_len();
    let mut v: Vec<char> = Vec::new();
    let mut k: usize = 0;
    while k < n
        invariant
            n == s@.len(),
            k <= n,
            v@ == s@.take(k as int),
        decreases n - k,
    {
        v.push(s.get_char(k));
        k += 1;
        proof {
            assert(v@ =~= s@.take(k as int));
        }
    }
    proof {
        assert(s@.take(n as int) =~= s@);
    }
    v
}

/// Parse exported JSON back into messages. On exactly the text that
/// `to_json` produces for a message list, the result is owed: it is the
/// same list of role, model name, content, time and error-flag tuples, with
/// display state and image paths at their defaults. Text of any other shape
/// may be rejected.
pub fn parse_json(s: &str) -> (r: Option<Vec<Message>>)
    ensures
        forall|ms: Seq<MessageModel>|
            s@ == json_msgs(ms) && times_ok(ms) ==> (r matches Some(out) && msgs_view(out@)
                == ms.map_values(|m: MessageModel| export_norm(m))),
{
    let v = str_to_chars(s);
    proof {
        reveal_strlit("[]");
    }
    if v.len() < 2 {
        proof {
            assert forall|ms: Seq<MessageModel>| !(s@ == json_msgs(ms) && times_ok(ms)) by {
                if s@ == json_msgs(ms) {
                    if ms.len() > 0 {
                        lemma_json_msg_min_len(ms);
                    }
                }
            }
        }
        return None;
    }
    if v[0] != '[' {
        proof {
            assert forall|ms: Seq<MessageModel>| !(s@ == json_msgs(ms) && times_ok(ms)) by {
                if s@ == json_msgs(ms) {
                    if ms.len() > 0 {
                        assert(json_msgs(ms)[0] == '[');
                    }
                }
            }
        }
        return None;
    }
    if v.len() == 2 {
        if v[1] == ']' {
            proof {
                assert forall|ms: Seq<MessageModel>|
                    s@ == json_msgs(ms) && times_ok(ms) implies ms.len() == 0 && ms.map_values(
                    |m: MessageModel| export_norm(m),
                ) =~= Seq::<MessageModel>::empty() by {
                    if ms.len() > 0 {
                        lemma_json_msg_min_len(ms);
                    }
                }
                assert(msgs_view(Seq::<Message>::empty()) =~= Seq::<MessageModel>::empty());
            }
            return Some(Vec::new());
        } else {
            proof {
                assert forall|ms: Seq<MessageModel>| !(s@ == json_msgs(ms) && times_ok(ms)) by {
                    if s@ == json_msgs(ms) {
                        if ms.len() > 0 {
                            lemma_json_msg_min_len(ms);
                        } else {
                            assert(s@[1] == ']');
                        }
                    }
                }
            }
            return None;
        }
    }
    proof {
        assert forall|ms: Seq<MessageModel>|
            s@ == json_msgs(ms) && times_ok(ms) implies ms.len() > 0 && msg_at(
            v@,
            1,
            ms[0],
            json_msgs_rest(ms.skip(1)) + seq![']'] + Seq::<char>::empty(),
        ) by {
            if ms.len() == 0 {
                assert(v@.len() == 2);
            }
            assert(json_msgs(ms) =~= seq!['['] + (json_msg(ms[0]) + (json_msgs_rest(ms.skip(1))
                + seq![']'] + Seq::<char>::empty())));
            assert(v@.skip(0) =~= v@);
            lemma_skip_prefix(
                v@,
                0,
                seq!['['],
                json_msg(ms[0]) + (json_msgs_rest(ms.skip(1)) + seq![']']
                    + Seq::<char>::empty()),
            );
        }
    }
    let first = match parse_msg(&v, 1) {
        Some(p) => p,
        None => {
            proof {
                assert forall|ms: Seq<MessageModel>| !(s@ == json_msgs(ms) && times_ok(ms)) by {
                    if s@ == json_msgs(ms) && times_ok(ms) {
                        assert(msg_at(
                            v@,
                            1,
                            ms[0],
                            json_msgs_rest(ms.skip(1)) + seq![']'] + Seq::<char>::empty(),
                        ));
                    }
                }
            }
            return None;
        },
    };
    proof {
        assert forall|ms: Seq<MessageModel>|
            s@ == json_msgs(ms) && times_ok(ms) implies msgs_rest_at(
            v@,
            first.1 as int,
            ms.skip(1),
            Seq::<char>::empty(),
        ) && first.0@ == export_norm(ms[0]) by {
            assert(msg_at(
                v@,
                1,
                ms[0],
                json_msgs_rest(ms.skip(1)) + seq![']'] + Seq::<char>::empty(),
            ));
            lemma_skip_prefix(
                v@,
                1,
                json_msg(ms[0]),
                json_msgs_rest(ms.skip(1)) + seq![']'] + Seq::<char>::empty(),
            );
            assert(times_ok(ms.skip(1)));
        }
    }
    let rec = match parse_msgs_rest(&v, first.1) {
        Some(p) => p,
        None => {
            proof {
                assert forall|ms: Seq<MessageModel>| !(s@ == json_msgs(ms) && times_ok(ms)) by {
                    if s@ == json_msgs(ms) && times_ok(ms) {
                        assert(msgs_rest_at(v@, first.1 as int, ms.skip(1), Seq::<char>::empty()));
                    }
                }
            }
            return None;
        },
    };
    if rec.1 != v.len() {
        // trailing input: not an encoding
        proof {
            assert forall|ms: Seq<MessageModel>| !(s@ == json_msgs(ms) && times_ok(ms)) by {
                if s@ == json_msgs(ms) && times_ok(ms) {
                    assert(msgs_rest_at(v@, first.1 as int, ms.skip(1), Seq::<char>::empty()));
                    assert(v@.len() == 1 + json_msg(ms[0]).len() + json_msgs_rest(
                        ms.skip(1),
                    ).len() + 1);
                }
            }
        }
        return None;
    }
    let mut out: Vec<Message> = Vec::new();
    out.push(first.0);
    let mut tail = rec.0;
    let ghost tail0 = tail@;
    out.append(&mut tail);
    proof {
        assert(out@ =~= seq![first.0] + tail0);
        assert forall|ms: Seq<MessageModel>|
            s@ == json_msgs(ms) && times_ok(ms) implies msgs_view(out@) == ms.map_values(
            |m: MessageModel| export_norm(m),
        ) by {
            assert(msgs_rest_at(v@, first.1 as int, ms.skip(1), Seq::<char>::empty()));
            assert(msgs_view(tail0) == ms.skip(1).map_values(|m: MessageModel| export_norm(m)));
            assert(msgs_view(out@) =~= seq![first.0@] + msgs_view(tail0));
            assert(ms.map_values(|m: MessageModel| export_norm(m)) =~= seq![export_norm(ms[0])]
                + ms.skip(1).map_values(|m: MessageModel| export_norm(m)));
            assert(msgs_view(out@) =~= ms.map_values(|m: MessageModel| export_norm(m)));
        }
    }
    Some(out)
}

/// The rendering of a non-empty message list is longer than an empty array.
proof fn lemma_json_msg_min_len(ms: Seq<MessageModel>)
    requires
        ms.len() > 0,
    ensures
        json_msgs(ms).len() > 2,
        json_msgs(ms)[0] == '[',
{
    reveal_strlit("{\"role\":");
    assert(json_msg(ms[0]).len() >= "{\"role\":"@.len());
    assert(json_msgs(ms).len() >= 2 + json_msg(ms[0]).len());
}

/// What an exported message parses back to: the exported fields as written,
/// the unexported display state and image paths at their defaults.
pub open spec fn export_norm(m: MessageModel) -> MessageModel {
    MessageModel {
        content: m.content,
        role: m.role,
        model_name: m.model_name,
        is_generating: false,
        is_error: m.is_error,
        time: m.time,
        images: Seq::empty(),
    }
}

/// The ASCII decimal digits.
pub open spec fn is_dec_digit(c: char) -> bool {
    '0' <= c && c <= '9'
}

fn is_dec_digit_exec(c: char) -> (r: bool)
    ensures
        r == is_dec_digit(c),
{
    '0' <= c && c <= '9'
}

/// The numeric value of a run of decimal digits, most significant first.
pub open spec fn digits_val(ds: Seq<char>) -> nat
    decreases ds.len(),
{
    if ds.len() == 0 {
        0
    } else {
        (digits_val(ds.drop_last()) * 10 + (ds.last() as int - 48)) as nat
    }
}

/// The decimal rendering of `n` consists of digits and reads back as `n`.
proof fn lemma_dec_digits_val(n: nat)
    ensures
        dec_digits(n).len() >= 1,
        forall|j: int| 0 <= j < dec_digits(n).len() ==> is_dec_digit(#[trigger] dec_digits(n)[j]),
        digits_val(dec_digits(n)) == n,
    decreases n,
{
    if n < 10 {
        assert(dec_digits(n) =~= seq![hex_digit(n as int)]);
        assert(dec_digits(n).drop_last() =~= Seq::<char>::empty());
        assert(dec_digits(n).last() == hex_digit(n as int));
        assert(digits_val(Seq::<char>::empty()) == 0);
        assert(hex_digit(n as int) as int - 48 == n);
        assert(digits_val(dec_digits(n)) == (hex_digit(n as int) as int - 48) as nat);
    } else {
        lemma_dec_digits_val(n / 10);
        assert(dec_digits(n) =~= dec_digits(n / 10).push(hex_digit((n % 10) as int)));
        assert(dec_digits(n).drop_last() =~= dec_digits(n / 10));
        assert(digits_val(dec_digits(n)) == (digits_val(dec_digits(n / 10)) * 10 + (hex_digit(
            (n % 10) as int,
        ) as int - 48)) as nat);
        assert(hex_digit((n % 10) as int) as int - 48 == n % 10);
        assert(n / 10 * 10 + n % 10 == n) by (nonlinear_arith);
    }
}

/// Every proper prefix of a digit rendering reads back as at most the
/// rendered number.
proof fn lemma_digits_val_prefix(n: nat, j: int)
    requires
        0 <= j <= dec_digits(n).len(),
    ensures
        digits_val(dec_digits(n).take(j)) <= n,
    decreases n,
{
    lemma_dec_digits_val(n);
    if n < 10 {
        if j == 0 {
            assert(dec_digits(n).take(0) =~= Seq::<char>::empty());
        } else {
            assert(dec_digits(n).take(j) =~= dec_digits(n));
        }
    } else {
        assert(dec_digits(n) =~= dec_digits(n / 10).push(hex_digit((n % 10) as int)));
        if j == dec_digits(n).len() {
            assert(dec_digits(n).take(j) =~= dec_digits(n));
        } else {
            lemma_digits_val_prefix(n / 10, j);
            assert(dec_digits(n).take(j) =~= dec_digits(n / 10).take(j));
            assert(n / 10 <= n) by (nonlinear_arith)
                requires
                    n >= 10,
            ;
        }
    }
}

/// Parse a maximal run of decimal digits. On a rendering of `n` followed by
/// anything that does not begin with a digit, returns exactly `n` and stops
/// right behind the rendering.
fn parse_u64(v: &Vec<char>, i: usize) -> (r: Option<(u64, usize)>)
    requires
        i <= v@.len(),
    ensures
        r matches Some(p) ==> i < p.1 <= v@.len(),
        forall|n: u64, rest: Seq<char>|
            v@.skip(i as int) == dec_digits(n as nat) + rest && (rest.len() == 0 || !is_dec_digit(
                rest[0],
            )) ==> (r matches Some(p) && p.0 == n && p.1 == i + dec_digits(n as nat).len()),
{
    if i >= v.len() || !is_dec_digit_exec(v[i]) {
        proof {
            assert forall|n: u64, rest: Seq<char>|
                !(v@.skip(i as int) == dec_digits(n as nat) + rest && (rest.len() == 0
                    || !is_dec_digit(rest[0]))) by {
                if v@.skip(i as int) == dec_digits(n as nat) + rest {
                    lemma_dec_digits_val(n as nat);
                    assert(v@.skip(i as int).len() == v@.len() - i);
                    assert(i < v@.len());
                    assert(v@.skip(i as int)[0] == v@[i as int]);
                    assert(v@.skip(i as int)[0] == dec_digits(n as nat)[0]);
                    assert(is_dec_digit(v@[i as int]));
                }
            }
        }
        return None;
    }
    let mut acc: u64 = 0;
    let mut k: usize = i;
    let mut stop = false;
    proof {
        assert(v@.subrange(i as int, i as int) =~= Seq::<char>::empty());
    }
    while k < v.len() && !stop
        invariant
            i <= k <= v@.len(),
            i < v@.len(),
            is_dec_digit(v@[i as int]),
            forall|m: int| i <= m < k ==> is_dec_digit(#[trigger] v@[m]),
            acc as nat == digits_val(v@.subrange(i as int, k as int)),
            stop ==> k < v@.len() && !is_dec_digit(v@[k as int]),
            forall|n: u64, rest: Seq<char>|
                v@.skip(i as int) == dec_digits(n as nat) + rest && (rest.len() == 0
                    || !is_dec_digit(rest[0])) ==> k - i <= dec_digits(n as nat).len(),
        decreases v@.len() - k + (if stop { 0int } else { 1int }),
    {
        let c = v[k];
        if !is_dec_digit_exec(c) {
            stop = true;
        } else {
            let d: u64 = (c as u64) - 48;
            if acc > (u64::MAX - d) / 10 {
                // too many digits for the rendering range: not an encoding
                proof {
                    assert forall|n: u64, rest: Seq<char>|
                        !(v@.skip(i as int) == dec_digits(n as nat) + rest && (rest.len() == 0
                            || !is_dec_digit(rest[0]))) by {
                        if v@.skip(i as int) == dec_digits(n as nat) + rest && (rest.len() == 0
                            || !is_dec_digit(rest[0])) {
                            lemma_no_overflow(v@, i as int, k as int, n, rest, acc, d);
                        }
                    }
                }
                return None;
            }
            acc = acc * 10 + d;
            k += 1;
            proof {
                assert(v@.subrange(i as int, k as int).drop_last() =~= v@.subrange(
                    i as int,
                    k - 1,
                ));
                assert forall|n: u64, rest: Seq<char>|
                    v@.skip(i as int) == dec_digits(n as nat) + rest && (rest.len() == 0
                        || !is_dec_digit(rest[0])) implies k - i <= dec_digits(
                    n as nat,
                ).len() by {
                    lemma_dec_digits_val(n as nat);
                    if k - i > dec_digits(n as nat).len() {
                        let e = i + dec_digits(n as nat).len();
                        assert(v@.skip(i as int)[e - i] == v@[e]);
                        assert(v@.skip(i as int)[e - i] == rest[0]);
                        assert(is_dec_digit(v@[e]));
                    }
                }
            }
        }
    }
    proof {
        assert forall|n: u64, rest: Seq<char>|
            v@.skip(i as int) == dec_digits(n as nat) + rest && (rest.len() == 0 || !is_dec_digit(
                rest[0],
            )) implies acc == n && k == i + dec_digits(n as nat).len() by {
            lemma_dec_digits_val(n as nat);
            let len = dec_digits(n as nat).len();
            assert(v@.skip(i as int).len() == v@.len() - i);
            if k - i < len {
                assert(v@.skip(i as int)[k - i] == v@[k as int]);
                assert(v@.skip(i as int)[k - i] == dec_digits(n as nat)[k - i]);
                assert(is_dec_digit(v@[k as int]));
                assert(stop || k == v@.len());
                assert(v@.len() - i >= len);
            }
            if k - i > len {
                assert(v@.skip(i as int)[len as int] == v@[i + len]);
                assert(v@.skip(i as int)[len as int] == rest[0]);
                assert(is_dec_digit(v@[i + len]));
            }
            assert(k == i + len);
            assert forall|m: int| 0 <= m < len implies #[trigger] v@.subrange(
                i as int,
                k as int,
            )[m] == dec_digits(n as nat)[m] by {
                assert(v@.skip(i as int)[m] == v@[i + m]);
            }
            assert(v@.subrange(i as int, k as int) =~= dec_digits(n as nat));
        }
    }
    Some((acc, k))
}

/// The value of a hexadecimal digit character, or nothing for any other
/// character.
fn hex_val(c: char) -> (r: Option<u32>)
    ensures
        r matches Some(x) ==> x < 16 && hex_digit(x as int) == c,
        r is None ==> forall|x: int| 0 <= x < 16 ==> hex_digit(x) != c,
{
    if c == '0' {
        Some(0)
    } else if c == '1' {
        Some(1)
    } else if c == '2' {
        Some(2)
    } else if c == '3' {
        Some(3)
    } else if c == '4' {
        Some(4)
    } else if c == '5' {
        Some(5)
    } else if c == '6' {
        Some(6)
    } else if c == '7' {
        Some(7)
    } else if c == '8' {
        Some(8)
    } else if c == '9' {
        Some(9)
    } else if c == 'a' {
        Some(10)
    } else if c == 'b' {
        Some(11)
    } else if c == 'c' {
        Some(12)
    } else if c == 'd' {
        Some(13)
    } else if c == 'e' {
        Some(14)
    } else if c == 'f' {
        Some(15)
    } else {
        None
    }
}

/// How an escaped text begins: with the first character's own rendering,
/// which never starts with a quote, and starts with a backslash exactly
/// when the character is escaped.
proof fn lemma_esc_head(t: Seq<char>)
    requires
        t.len() > 0,
    ensures
        esc(t) == esc_char(t[0]) + esc(t.skip(1)),
        esc(t).len() >= esc_char(t[0]).len(),
        esc_char(t[0]).len() == (if needs_escape(t[0]) {
            6int
        } else {
            1int
        }),
        esc(t)[0] == esc_char(t[0])[0],
        esc(t)[0] != '"',
        needs_escape(t[0]) ==> esc(t)[0] == '\\',
        !needs_escape(t[0]) ==> esc(t)[0] == t[0],
    decreases t.len(),
{
    if needs_escape(t[0]) {
        assert(esc_char(t[0])[0] == '\\');
    } else {
        assert(esc_char(t[0]) =~= seq![t[0]]);
    }
}

/// Parse the remainder of a JSON string, after its opening quote, up to and
/// including its closing quote. On the rendering of a text `t` followed by
/// anything, returns exactly `t` and stops right behind the closing quote.
fn parse_string_rec(v: &Vec<char>, i: usize) -> (r: Option<(Vec<char>, usize)>)
    requires
        i <= v@.len(),
    ensures
        r matches Some(p) ==> i < p.1 <= v@.len(),
        forall|t: Seq<char>, rest: Seq<char>|
            v@.skip(i as int) == esc(t) + seq!['"'] + rest ==> (r matches Some(p) && p.0@ == t
                && p.1 == i + esc(t).len() + 1),
    decreases v@.len() - i,
{
    if i >= v.len() {
        proof {
            assert forall|t: Seq<char>, rest: Seq<char>|
                v@.skip(i as int) != esc(t) + seq!['"'] + rest by {
                assert(v@.skip(i as int).len() == 0);
                assert((esc(t) + seq!['"'] + rest).len() >= 1);
            }
        }
        return None;
    }
    let c = v[i];
    proof {
        assert(v@.skip(i as int)[0] == v@[i as int]);
    }
    if c == '"' {
        proof {
            assert forall|t: Seq<char>, rest: Seq<char>|
                v@.skip(i as int) == esc(t) + seq!['"'] + rest implies t.len() == 0 && esc(
                t,
            ).len() == 0 by {
                if t.len() > 0 {
                    lemma_esc_head(t);
                    assert((esc(t) + seq!['"'] + rest)[0] == esc(t)[0]);
                }
            }
        }
        return Some((Vec::new(), i + 1));
    }
    if c == '\\' {
        // the uniform escape: backslash, 'u', two zero digits, two hex digits
        if v.len() - i < 6 || v[i + 1] != 'u' || v[i + 2] != '0' || v[i + 3] != '0' {
            proof {
                lemma_escape_shape(v@, i as int);
            }
            return None;
        }
        let h1 = hex_val(v[i + 4]);
        let h0 = hex_val(v[i + 5]);
        match (h1, h0) {
            (Some(a), Some(b)) => {
                let code: u32 = a * 16 + b;
                if !(code < 32 || code == 34 || code == 92) {
                    proof {
                        lemma_escape_shape(v@, i as int);
                    }
                    return None;
                }
                let c0: char = (code as u8) as char;
                let rec = parse_string_rec(v, i + 6);
                match rec {
                    Some(p) => {
                        let mut out: Vec<char> = Vec::new();
                        out.push(c0);
                        let mut tail = p.0;
                        let ghost tail0 = tail@;
                        out.append(&mut tail);
                        proof {
                            assert(out@ =~= seq![c0] + tail0);
                            assert(out@.skip(1) =~= tail0);
                            lemma_escape_shape(v@, i as int);
                            lemma_escape_parsed(v@, i as int, a, b, out@, p.1 as int);
                        }
                        Some((out, p.1))
                    },
                    None => {
                        proof {
                            lemma_escape_shape(v@, i as int);
                            assert forall|t: Seq<char>, rest: Seq<char>|
                                v@.skip(i as int) != esc(t) + seq!['"'] + rest by {
                                if v@.skip(i as int) == esc(t) + seq!['"'] + rest {
                                    lemma_esc_head(t);
                                    lemma_skip_tail(v@, i as int, t, rest);
                                }
                            }
                        }
                        None
                    },
                }
            },
            _ => {
                proof {
                    lemma_escape_shape(v@, i as int);
                }
                None
            },
        }
    } else {
        // a plain character
        let rec = parse_string_rec(v, i + 1);
        match rec {
            Some(p) => {
                let mut out: Vec<char> = Vec::new();
                out.push(c);
                let mut tail = p.0;
                let ghost tail0 = tail@;
                out.append(&mut tail);
                proof {
                    assert(out@ =~= seq![c] + tail0);
                    assert forall|t: Seq<char>, rest: Seq<char>|
                        v@.skip(i as int) == esc(t) + seq!['"'] + rest implies (out@ == t && p.1
                        == i + esc(t).len() + 1) by {
                        lemma_esc_head(t);
                        assert((esc(t) + seq!['"'] + rest)[0] == esc(t)[0]);
                        if needs_escape(t[0]) {
                            assert(esc(t)[0] == '\\');
                        }
                        assert(!needs_escape(t[0]) && t[0] == v@[i as int]);
                        lemma_skip_tail(v@, i as int, t, rest);
                        assert(tail0 == t.skip(1));
                        assert(out@ =~= seq![t[0]] + t.skip(1));
                        assert(out@ =~= t);
                    }
                }
                Some((out, p.1))
            },
            None => {
                proof {
                    assert forall|t: Seq<char>, rest: Seq<char>|
                        v@.skip(i as int) != esc(t) + seq!['"'] + rest by {
                        if v@.skip(i as int) == esc(t) + seq!['"'] + rest {
                            lemma_esc_head(t);
                            assert((esc(t) + seq!['"'] + rest)[0] == esc(t)[0]);
                            lemma_skip_tail(v@, i as int, t, rest);
                        }
                    }
                }
                None
            },
        }
    }
}

/// Two distinct digit values render as distinct digit characters.
proof fn lemma_hex_digit_injective(x: int, y: int)
    requires
        0 <= x < 16,
        0 <= y < 16,
        hex_digit(x) == hex_digit(y),
    ensures
        x == y,
{
}

/// Under the escape rendering of any text, the six characters of the first
/// escape are exactly as written, and the escaped code is in the escape
/// range.
proof fn lemma_escape_shape(v: Seq<char>, i: int)
    requires
        0 <= i < v.len(),
        v[i] == '\\',
    ensures
        forall|t: Seq<char>, rest: Seq<char>|
            v.skip(i) == esc(t) + seq!['"'] + rest ==> escape_head_facts(v, i, t),
{
    assert forall|t: Seq<char>, rest: Seq<char>|
        v.skip(i) == esc(t) + seq!['"'] + rest implies escape_head_facts(v, i, t) by {
        assert(v.skip(i).len() == v.len() - i);
        assert(v.skip(i)[0] == v[i]);
        if t.len() == 0 {
            assert((esc(t) + seq!['"'] + rest)[0] == '"');
        }
        lemma_esc_head(t);
        assert((esc(t) + seq!['"'] + rest)[0] == esc(t)[0]);
        assert(needs_escape(t[0]));
        if t[0] == '"' {
            assert((t[0] as u32) == 34);
        } else if t[0] == '\\' {
            assert((t[0] as u32) == 92);
        } else {
            assert((t[0] as u32) < 32);
        }
        assert((t[0] as u32) < 128);
        assert(esc(t).len() >= 6);
        assert((esc(t) + seq!['"'] + rest).len() >= 7);
        assert(i + 6 < v.len());
        assert forall|m: int| 0 <= m < 6 implies v[i + m] == esc_char(t[0])[m] by {
            assert(v.skip(i)[m] == v[i + m]);
            assert((esc(t) + seq!['"'] + rest)[m] == esc(t)[m]);
            assert(esc(t)[m] == esc_char(t[0])[m]);
        }
        assert(esc_char(t[0])[1] == 'u');
        assert(esc_char(t[0])[2] == '0');
        assert(esc_char(t[0])[3] == '0');
        assert(esc_char(t[0])[4] == hex_digit((t[0] as u32) as int / 16));
        assert(esc_char(t[0])[5] == hex_digit((t[0] as u32) as int % 16));
    }
}

/// What holds of the head of a rendering that begins with an escape.
pub open spec fn escape_head_facts(v: Seq<char>, i: int, t: Seq<char>) -> bool {
    &&& t.len() > 0
    &&& needs_escape(t[0])
    &&& (t[0] as u32) < 128
    &&& i + 6 <= v.len()
    &&& v[i + 1] == 'u'
    &&& v[i + 2] == '0'
    &&& v[i + 3] == '0'
    &&& v[i + 4] == hex_digit((t[0] as u32) as int / 16)
    &&& v[i + 5] == hex_digit((t[0] as u32) as int % 16)
}

/// Consuming the first character's rendering leaves the rendering of the
/// remaining text.
proof fn lemma_skip_tail(v: Seq<char>, i: int, t: Seq<char>, rest: Seq<char>)
    requires
        0 <= i <= v.len(),
        t.len() > 0,
        v.skip(i) == esc(t) + seq!['"'] + rest,
    ensures
        v.skip(i + esc_char(t[0]).len()) == esc(t.skip(1)) + seq!['"'] + rest,
        i + esc_char(t[0]).len() <= v.len(),
{
    lemma_esc_head(t);
    let w = esc_char(t[0]).len();
    assert(v.skip(i).len() == v.len() - i);
    assert forall|m: int| 0 <= m < v.len() - i - w implies v.skip(i + w)[m] == (esc(t.skip(1))
        + seq!['"'] + rest)[m] by {
        assert(v.skip(i + w)[m] == v[i + w + m]);
        assert(v.skip(i)[w + m] == v[i + w + m]);
        assert((esc(t) + seq!['"'] + rest)[w + m] == (esc(t.skip(1)) + seq!['"'] + rest)[m]);
    }
    assert(v.skip(i + w) =~= esc(t.skip(1)) + seq!['"'] + rest);
}

/// After a parsed escape, the assembled text is the escaped text.
proof fn lemma_escape_parsed(v: Seq<char>, i: int, a: u32, b: u32, out: Seq<char>, j: int)
    requires
        0 <= i < v.len(),
        v[i] == '\\',
        a < 16,
        b < 16,
        hex_digit(a as int) == v[i + 4],
        hex_digit(b as int) == v[i + 5],
        forall|t: Seq<char>, rest: Seq<char>|
            v.skip(i) == esc(t) + seq!['"'] + rest ==> escape_head_facts(v, i, t),
        forall|t2: Seq<char>, rest2: Seq<char>|
            v.skip(i + 6) == esc(t2) + seq!['"'] + rest2 ==> (out.skip(1) == t2 && j == i + 6
                + esc(t2).len() + 1),
        out.len() >= 1,
        out[0] == (((a * 16 + b) as u8) as char),
    ensures
        forall|t: Seq<char>, rest: Seq<char>|
            v.skip(i) == esc(t) + seq!['"'] + rest ==> (out == t && j == i + esc(t).len() + 1),
{
    assert forall|t: Seq<char>, rest: Seq<char>|
        v.skip(i) == esc(t) + seq!['"'] + rest implies (out == t && j == i + esc(t).len()
        + 1) by {
        assert(escape_head_facts(v, i, t));
        lemma_esc_head(t);
        let c = (t[0] as u32) as int;
        assert(0 <= c / 16 < 16);
        assert(0 <= c % 16 < 16);
        lemma_hex_digit_injective(c / 16, a as int);
        lemma_hex_digit_injective(c % 16, b as int);
        assert(c == (c / 16) * 16 + c % 16);
        assert(c == a * 16 + b);
        let code: u32 = (a * 16 + b) as u32;
        assert(t[0] as u32 == code);
        vstd::utf8::char_u32_cast(t[0], code);
        assert((code as u8) as u32 == code);
        assert(out[0] == (code as u8) as char);
        assert(((code as u8) as char) as u32 == (code as u8) as u32);
        assert(out[0] as u32 == code);
        vstd::utf8::char_u32_cast(out[0], code);
        assert((code as char) == t[0]);
        assert((code as char) == out[0]);
        assert(out[0] == t[0]);
        lemma_skip_tail(v, i, t, rest);
        assert(out.skip(1) == t.skip(1));
        assert(out.len() == t.len());
        assert forall|m: int| 0 <= m < out.len() implies out[m] == t[m] by {
            if m > 0 {
                assert(out.skip(1)[m - 1] == out[m]);
                assert(t.skip(1)[m - 1] == t[m]);
            }
        }
        assert(out =~= t);
        assert(j == i + 6 + esc(t.skip(1)).len() + 1);
        assert(esc(t).len() == 6 + esc(t.skip(1)).len());
    }
}

/// Consuming a known prefix of a suffix leaves its tail.
proof fn lemma_skip_prefix(v: Seq<char>, i: int, a: Seq<char>, b: Seq<char>)
    requires
        0 <= i <= v.len(),
        v.skip(i) == a + b,
    ensures
        i + a.len() <= v.len(),
        v.skip(i + a.len()) == b,
        v.subrange(i, i + a.len()) == a,
{
    assert(v.skip(i).len() == v.len() - i);
    assert forall|m: int| 0 <= m < b.len() implies v.skip(i + a.len())[m] == b[m] by {
        assert(v.skip(i + a.len())[m] == v[i + a.len() + m]);
        assert(v.skip(i)[a.len() + m] == v[i + a.len() + m]);
        assert((a + b)[a.len() + m] == b[m]);
    }
    assert(v.skip(i + a.len()) =~= b);
    assert forall|m: int| 0 <= m < a.len() implies v.subrange(i, i + a.len())[m] == a[m] by {
        assert(v.skip(i)[m] == v[i + m]);
        assert((a + b)[m] == a[m]);
    }
    assert(v.subrange(i, i + a.len()) =~= a);
}

/// Match the exact characters of `s` at position `i`.
fn expect_chars(v: &Vec<char>, i: usize, s: &str) -> (r: Option<usize>)
    requires
        i <= v@.len(),
    ensures
        r matches Some(j) ==> j == i + s@.len() && j <= v@.len() && v@.subrange(
            i as int,
            j as int,
        ) == s@,
        r is None ==> i + s@.len() > v@.len() || v@.subrange(i as int, i + s@.len()) != s@,
{
    let n = s.unicode_len();
    if v.len() - i < n {
        return None;
    }
    let end = i + n;
    let mut k: usize = 0;
    while k < n
        invariant
            n == s@.len(),
            end == i + n <= v@.len(),
            k <= n,
            forall|m: int| 0 <= m < k ==> v@[i + m] == s@[m],
        decreases n - k,
    {
        let pos = i + k;
        if v[pos] != s.get_char(k) {
            proof {
                assert(v@.subrange(i as int, i + s@.len())[k as int] == v@[i + k]);
            }
            return None;
        }
        k += 1;
    }
    proof {
        assert(v@.subrange(i as int, i + s@.len()) =~= s@);
    }
    Some(i + n)
}

/// Parse a JSON integer into the signed range. On the rendering of `t`
/// followed by anything that does not begin with a digit, returns exactly
/// `t` and stops right behind the rendering.
fn parse_i64(v: &Vec<char>, i: usize) -> (r: Option<(i64, usize)>)
    requires
        i <= v@.len(),
    ensures
        r matches Some(p) ==> i < p.1 <= v@.len(),
        forall|t: i64, rest: Seq<char>|
            v@.skip(i as int) == json_int(t as int) + rest && (rest.len() == 0 || !is_dec_digit(
                rest[0],
            )) ==> (r matches Some(p) && p.0 == t && p.1 == i + json_int(t as int).len()),
{
    if i < v.len() && v[i] == '-' {
        proof {
            assert(v@.skip(i as int)[0] == v@[i as int]);
            assert forall|t: i64, rest: Seq<char>|
                v@.skip(i as int) == json_int(t as int) + rest && (rest.len() == 0
                    || !is_dec_digit(rest[0])) implies t < 0 && v@.skip(i + 1) == dec_digits(
                (-(t as int)) as nat,
            ) + rest by {
                if t >= 0 {
                    lemma_dec_digits_val(t as nat);
                    assert((json_int(t as int) + rest)[0] == dec_digits(t as nat)[0]);
                    assert(is_dec_digit(v@[i as int]));
                    assert(v@[i as int] != '-');
                }
                assert(json_int(t as int) + rest =~= seq!['-'] + (dec_digits((-(t as int)) as nat)
                    + rest));
                lemma_skip_prefix(
                    v@,
                    i as int,
                    seq!['-'],
                    dec_digits((-(t as int)) as nat) + rest,
                );
            }
        }
        match parse_u64(v, i + 1) {
            Some((n, j)) => {
                if n <= 9223372036854775807u64 {
                    proof {
                        lemma_negative_int_parsed(v@, i as int, n, j as int);
                    }
                    Some((-(n as i64), j))
                } else if n == 9223372036854775808u64 {
                    proof {
                        lemma_negative_int_parsed(v@, i as int, n, j as int);
                    }
                    Some((i64::MIN, j))
                } else {
                    proof {
                        lemma_negative_int_parsed(v@, i as int, n, j as int);
                    }
                    None
                }
            },
            None => {
                proof {
                    assert forall|t: i64, rest: Seq<char>|
                        !(v@.skip(i as int) == json_int(t as int) + rest && (rest.len() == 0
                            || !is_dec_digit(rest[0]))) by {
                        if v@.skip(i as int) == json_int(t as int) + rest && (rest.len() == 0
                            || !is_dec_digit(rest[0])) {
                            assert(v@.skip(i + 1) == dec_digits((-(t as int)) as nat) + rest);
                            let m: u64 = (-(t as int)) as u64;
                            assert(dec_digits(m as nat) == dec_digits((-(t as int)) as nat));
                        }
                    }
                }
                None
            },
        }
    } else {
        proof {
            assert forall|t: i64, rest: Seq<char>|
                v@.skip(i as int) == json_int(t as int) + rest && (rest.len() == 0
                    || !is_dec_digit(rest[0])) implies t >= 0 && v@.skip(i as int) == dec_digits(
                t as nat,
            ) + rest by {
                lemma_json_int_head(v@, i as int, t, rest);
            }
        }
        match parse_u64(v, i) {
            Some((n, j)) => {
                if n <= 9223372036854775807u64 {
                    Some((n as i64, j))
                } else {
                    proof {
                        assert forall|t: i64, rest: Seq<char>|
                            !(v@.skip(i as int) == json_int(t as int) + rest && (rest.len() == 0
                                || !is_dec_digit(rest[0]))) by {
                            if v@.skip(i as int) == json_int(t as int) + rest && (rest.len() == 0
                                || !is_dec_digit(rest[0])) {
                                assert(n == t as u64);
                            }
                        }
                    }
                    None
                }
            },
            None => None,
        }
    }
}

/// A non-negative rendering starts with its digits.
proof fn lemma_json_int_head(v: Seq<char>, i: int, t: i64, rest: Seq<char>)
    requires
        0 <= i <= v.len(),
        v.skip(i) == json_int(t as int) + rest,
        rest.len() == 0 || !is_dec_digit(rest[0]),
        i < v.len() ==> v[i] != '-',
    ensures
        t >= 0,
        v.skip(i) == dec_digits(t as nat) + rest,
{
    assert(v.skip(i).len() == v.len() - i);
    assert(v.skip(i)[0] == v[i]);
    if t < 0 {
        assert((json_int(t as int) + rest)[0] == '-');
    }
}

/// Carry the magnitude parsed after a minus sign back to the signed value.
proof fn lemma_negative_int_parsed(v: Seq<char>, i: int, n: u64, j: int)
    requires
        0 <= i < v.len(),
        v[i] == '-',
        forall|t: i64, rest: Seq<char>|
            v.skip(i) == json_int(t as int) + rest && (rest.len() == 0 || !is_dec_digit(rest[0]))
                ==> t < 0 && v.skip(i + 1) == dec_digits((-(t as int)) as nat) + rest,
        forall|m: u64, rest: Seq<char>|
            v.skip(i + 1) == dec_digits(m as nat) + rest && (rest.len() == 0 || !is_dec_digit(
                rest[0],
            )) ==> m == n && j == i + 1 + dec_digits(m as nat).len(),
    ensures
        forall|t: i64, rest: Seq<char>|
            v.skip(i) == json_int(t as int) + rest && (rest.len() == 0 || !is_dec_digit(rest[0]))
                ==> (-(t as int)) == n as int && j == i + json_int(t as int).len(),
{
    assert forall|t: i64, rest: Seq<char>|
        v.skip(i) == json_int(t as int) + rest && (rest.len() == 0 || !is_dec_digit(rest[0]))
            implies (-(t as int)) == n as int && j == i + json_int(t as int).len() by {
        let m: u64 = (-(t as int)) as u64;
        assert(m as nat == (-(t as int)) as nat);
        assert(v.skip(i + 1) == dec_digits(m as nat) + rest);
        assert(m == n && j == i + 1 + dec_digits(m as nat).len());
        assert(json_int(t as int).len() == 1 + dec_digits((-(t as int)) as nat).len());
    }
}

/// Parse a JSON boolean. On the rendering of `b` followed by anything,
/// returns exactly `b`.
fn parse_bool(v: &Vec<char>, i: usize) -> (r: Option<(bool, usize)>)
    requires
        i <= v@.len(),
    ensures
        r matches Some(p) ==> i < p.1 <= v@.len(),
        forall|b: bool, rest: Seq<char>|
            v@.skip(i as int) == json_bool(b) + rest ==> (r matches Some(p) && p.0 == b && p.1 == i
                + json_bool(b).len()),
{
    proof {
        reveal_strlit("true");
        reveal_strlit("false");
    }
    match expect_chars(v, i, "true") {
        Some(j) => {
            proof {
                assert forall|b: bool, rest: Seq<char>|
                    v@.skip(i as int) == json_bool(b) + rest implies b == true && j == i
                    + json_bool(b).len() by {
                    lemma_skip_prefix(v@, i as int, json_bool(b), rest);
                    if !b {
                        assert(v@.subrange(i as int, i + 5)[0] == "false"@[0]);
                        assert(v@.subrange(i as int, i + 4)[0] == v@[i as int]);
                        assert(v@.subrange(i as int, i + 5)[0] == v@[i as int]);
                        assert(v@[i as int] == 't' && v@[i as int] == 'f');
                    }
                }
            }
            Some((true, j))
        },
        None => {
            match expect_chars(v, i, "false") {
                Some(j) => {
                    proof {
                        assert forall|b: bool, rest: Seq<char>|
                            v@.skip(i as int) == json_bool(b) + rest implies b == false && j == i
                            + json_bool(b).len() by {
                            lemma_skip_prefix(v@, i as int, json_bool(b), rest);
                            if b {
                                assert(v@.subrange(i as int, i + 4) == "true"@);
                                assert(v@.subrange(i as int, i + 5)[0] == "false"@[0]);
                                assert(v@.subrange(i as int, i + 4)[0] == v@[i as int]);
                                assert(v@.subrange(i as int, i + 5)[0] == v@[i as int]);
                                assert(v@[i as int] == 't' && v@[i as int] == 'f');
                            }
                        }
                    }
                    Some((false, j))
                },
                None => {
                    proof {
                        assert forall|b: bool, rest: Seq<char>|
                            v@.skip(i as int) != json_bool(b) + rest by {
                            if v@.skip(i as int) == json_bool(b) + rest {
                                lemma_skip_prefix(v@, i as int, json_bool(b), rest);
                            }
                        }
                    }
                    None
                },
            }
        },
    }
}

/// While the digits read so far sit inside a rendering that a non-digit
/// follows, accumulating the next digit stays within range.
proof fn lemma_no_overflow(
    v: Seq<char>,
    i: int,
    k: int,
    n: u64,
    rest: Seq<char>,
    acc: u64,
    d: u64,
)
    requires
        0 <= i <= k < v.len(),
        v.skip(i) == dec_digits(n as nat) + rest,
        rest.len() == 0 || !is_dec_digit(rest[0]),
        forall|m: int| i <= m < k ==> is_dec_digit(#[trigger] v[m]),
        is_dec_digit(v[k]),
        acc as nat == digits_val(v.subrange(i, k)),
        d == v[k] as u64 - 48,
        k - i <= dec_digits(n as nat).len(),
    ensures
        acc <= (u64::MAX - d) / 10,
{
    lemma_dec_digits_val(n as nat);
    let len = dec_digits(n as nat).len();
    if k - i == len {
        assert(v.skip(i)[k - i] == v[k]);
        assert(v.skip(i)[k - i] == rest[0]);
        assert(!is_dec_digit(v[k]));
    }
    assert(k - i < len);
    assert forall|m: int| 0 <= m < k - i + 1 implies #[trigger] v.subrange(i, k + 1)[m]
        == dec_digits(n as nat).take(k - i + 1)[m] by {
        assert(v.skip(i)[m] == v[i + m]);
    }
    assert(v.subrange(i, k + 1) =~= dec_digits(n as nat).take(k - i + 1));
    assert(v.subrange(i, k) =~= v.subrange(i, k + 1).drop_last());
    assert(v.subrange(i, k) =~= dec_digits(n as nat).take(k - i));
    lemma_digits_val_prefix(n as nat, k - i + 1);
    assert(dec_digits(n as nat).take(k - i + 1).drop_last() =~= dec_digits(n as nat).take(k - i));
    assert(digits_val(dec_digits(n as nat).take(k - i + 1)) == (acc as int * 10 + (v[k] as int
        - 48)) as nat);
    assert(acc as nat * 10 + d as nat <= u64::MAX as nat);
    assert(acc <= (u64::MAX - d) / 10);
}

} // verus!
