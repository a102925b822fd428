//! Core logic of a chat client for a locally hosted language-model server:
//! the streaming completion lifecycle and its cross-thread progress delivery.
//!
//! A background task streams completion chunks into a channel; the rendering
//! thread polls the channel once per frame and applies the drained payloads
//! to its message list. Sessions, cancellation, retry and regeneration, and
//! message export are modelled and verified here; network transport and
//! rendering live outside the library.

pub mod channel;
pub mod chat;
pub mod export;
pub mod flag;
pub mod message;
pub mod picker;
pub mod sessions;
pub mod settings;
pub mod task;
pub mod text;
pub mod timefmt;

use vstd::prelude::*;

verus! {

/// True for the ASCII alphanumeric characters.
pub open spec fn is_alnum(c: char) -> bool {
    ('a' <= c && c <= 'z') || ('A' <= c && c <= 'Z') || ('0' <= c && c <= '9')
}

fn is_alnum_exec(c: char) -> (r: bool)
    ensures
        r == is_alnum(c),
{
    ('a' <= c && c <= 'z') || ('A' <= c && c <= 'Z') || ('0' <= c && c <= '9')
}

/// ASCII upper-casing of one character.
pub open spec fn upper(c: char) -> char {
    if 'a' <= c && c <= 'z' {
        (c as u8 - 32) as char
    } else {
        c
    }
}

fn upper_exec(c: char) -> (r: char)
    ensures
        r == upper(c),
{
    if 'a' <= c && c <= 'z' {
        ((c as u8) - 32) as char
    } else {
        c
    }
}

/// The leading run of ASCII alphanumeric characters of `s`.
pub closed spec fn alnum_prefix(s: Seq<char>) -> Seq<char>
    decreases s.len(),
{
    if s.len() == 0 || !is_alnum(s[0]) {
        Seq::empty()
    } else {
        seq![s[0]] + alnum_prefix(s.skip(1))
    }
}

proof fn lemma_alnum_prefix_is_take(s: Seq<char>, i: int)
    requires
        0 <= i <= s.len(),
        forall|j: int| 0 <= j < i ==> is_alnum(#[trigger] s[j]),
        i < s.len() ==> !is_alnum(s[i]),
    ensures
        alnum_prefix(s) =~= s.take(i),
    decreases i,
{
    if i == 0 {
        if s.len() > 0 {
            assert(!is_alnum(s[0]));
        }
    } else {
        assert(is_alnum(s[0]));
        lemma_alnum_prefix_is_take(s.skip(1), i - 1);
        assert(alnum_prefix(s) =~= seq![s[0]] + s.skip(1).take(i - 1));
    }
}

/// The short display name of a model name: the leading alphanumeric run with
/// its first character raised to upper case, or "Llama" when there is none.
pub open spec fn spec_short_name(s: Seq<char>) -> Seq<char> {
    if alnum_prefix(s).len() == 0 {
        "Llama"@
    } else {
        seq![upper(alnum_prefix(s)[0])] + alnum_prefix(s).skip(1)
    }
}

/// Convert a model name into a short display name, for instance
/// "starling-lm:7b-beta" into "Starling".
pub fn make_short_name(name: &str) -> (r: String)
    ensures
        r@ == spec_short_name(name@),
{
    let n = name.unicode_len();
    let mut pre: Vec<char> = Vec::new();
    let mut i: usize = 0;
    let mut stop = false;
    while i < n && !stop
        invariant
            n == name@.len(),
            i <= n,
            forall|j: int| 0 <= j < i ==> is_alnum(#[trigger] name@[j]),
            pre@ == name@.take(i as int),
            stop ==> i < n && !is_alnum(name@[i as int]),
        decreases n - i + (if stop { 0int } else { 1int }),
    {
        let c = name.get_char(i);
        if is_alnum_exec(c) {
            pre.push(c);
            i += 1;
            proof {
                assert(pre@ =~= name@.take(i as int));
            }
        } else {
            stop = true;
        }
    }
    proof {
        lemma_alnum_prefix_is_take(name@, i as int);
    }
    if pre.len() == 0 {
        proof {
            reveal_strlit("Llama");
        }
        return "Llama".to_owned();
    }
    let mut out: Vec<char> = Vec::new();
    out.push(upper_exec(pre[0]));
    let mut k: usize = 1;
    while k < pre.len()
        invariant
            1 <= k <= pre@.len(),
            pre@ == alnum_prefix(name@),
            out@ == seq![upper(pre@[0])] + pre@.skip(1).take(k - 1),
        decreases pre@.len() - k,
    {
        out.push(pre[k]);
        k += 1;
        proof {
            assert(out@ =~= seq![upper(pre@[0])] + pre@.skip(1).take(k - 1));
        }
    }
    proof {
        assert(out@ =~= spec_short_name(name@));
    }
    crate::message::chars_to_string(&out)
}

} // verus!
