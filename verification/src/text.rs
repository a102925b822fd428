//! Character-level text helpers: ASCII whitespace trimming and line
//! truncation, with exact specifications. Streamed completion chunks are
//! cleaned with these before they are shown or stored.

use vstd::prelude::*;

verus! {

/// The whitespace characters this library strips from streamed text.
pub open spec fn is_space(c: char) -> bool {
    c == ' ' || c == '\t' || c == '\n' || c == '\r' || c == '\u{b}' || c == '\u{c}'
}

pub fn is_space_exec(c: char) -> (r: bool)
    ensures
        r == is_space(c),
{
    c == ' ' || c == '\t' || c == '\n' || c == '\r' || c == '\u{b}' || c == '\u{c}'
}

/// `s` without its leading whitespace.
pub open spec fn trim_start(s: Seq<char>) -> Seq<char>
    decreases s.len(),
{
    if s.len() == 0 || !is_space(s[0]) {
        s
    } else {
        trim_start(s.skip(1))
    }
}

/// `s` without its trailing whitespace.
pub open spec fn trim_end(s: Seq<char>) -> Seq<char>
    decreases s.len(),
{
    if s.len() == 0 || !is_space(s[s.len() - 1]) {
        s
    } else {
        trim_end(s.take(s.len() - 1))
    }
}

/// Whether `s` consists of whitespace only.
pub open spec fn is_blank(s: Seq<char>) -> bool {
    trim_start(s).len() == 0
}

/// Trimming from the front skips exactly the leading run of whitespace.
proof fn lemma_trim_start_at(s: Seq<char>, i: int)
    requires
        0 <= i <= s.len(),
        forall|j: int| 0 <= j < i ==> is_space(#[trigger] s[j]),
        i < s.len() ==> !is_space(s[i]),
    ensures
        trim_start(s) =~= s.skip(i),
    decreases i,
{
    if i == 0 {
    } else {
        assert(is_space(s[0]));
        lemma_trim_start_at(s.skip(1), i - 1);
        assert(s.skip(1).skip(i - 1) =~= s.skip(i));
    }
}

/// Trimming from the back keeps exactly the part before the trailing run
/// of whitespace.
proof fn lemma_trim_end_at(s: Seq<char>, i: int)
    requires
        0 <= i <= s.len(),
        forall|j: int| i <= j < s.len() ==> is_space(#[trigger] s[j]),
        i > 0 ==> !is_space(s[i - 1]),
    ensures
        trim_end(s) =~= s.take(i),
    decreases s.len() - i,
{
    if i == s.len() {
        assert(s.take(i) =~= s);
        if s.len() > 0 && is_space(s[s.len() - 1]) {
            assert(!is_space(s[i - 1]));
        }
    } else {
        assert(is_space(s[s.len() - 1]));
        lemma_trim_end_at(s.take(s.len() - 1), i);
        assert(s.take(s.len() - 1).take(i) =~= s.take(i));
    }
}

/// The index where the leading whitespace of `s` ends.
fn ws_prefix_end(s: &str) -> (i: usize)
    ensures
        i <= s@.len(),
        forall|j: int| 0 <= j < i ==> is_space(#[trigger] s@[j]),
        i < s@.len() ==> !is_space(s@[i as int]),
        trim_start(s@) == s@.skip(i as int),
{
    let n = s.unicode_len();
    let mut i: usize = 0;
    let mut stop = false;
    while i < n && !stop
        invariant
            n == s@.len(),
            i <= n,
            forall|j: int| 0 <= j < i ==> is_space(#[trigger] s@[j]),
            stop ==> i < n && !is_space(s@[i as int]),
        decreases n - i + (if stop { 0int } else { 1int }),
    {
        if is_space_exec(s.get_char(i)) {
            i += 1;
        } else {
            stop = true;
        }
    }
    proof {
        lemma_trim_start_at(s@, i as int);
    }
    i
}

/// The index where the trailing whitespace of `s` begins.
fn ws_suffix_start(s: &str) -> (i: usize)
    ensures
        i <= s@.len(),
        forall|j: int| i <= j < s@.len() ==> is_space(#[trigger] s@[j]),
        i > 0 ==> !is_space(s@[i - 1]),
        trim_end(s@) == s@.take(i as int),
{
    let n = s.unicode_len();
    let mut i: usize = n;
    let mut stop = false;
    while i > 0 && !stop
        invariant
            n == s@.len(),
            i <= n,
            forall|j: int| i <= j < n ==> is_space(#[trigger] s@[j]),
            stop ==> i > 0 && !is_space(s@[i - 1]),
        decreases i + (if stop { 0int } else { 1int }),
    {
        if is_space_exec(s.get_char(i - 1)) {
            i -= 1;
        } else {
            stop = true;
        }
    }
    proof {
        lemma_trim_end_at(s@, i as int);
    }
    i
}

/// `s` without its leading whitespace.
pub fn trim_start_exec(s: &str) -> (r: String)
    ensures
        r@ == trim_start(s@),
{
    let i = ws_prefix_end(s);
    let n = s.unicode_len();
    let t = s.substring_char(i, n);
    proof {
        assert(s@.subrange(i as int, n as int) =~= s@.skip(i as int));
    }
    t.to_owned()
}

/// `s` without its trailing whitespace.
pub fn trim_end_exec(s: &str) -> (r: String)
    ensures
        r@ == trim_end(s@),
{
    let i = ws_suffix_start(s);
    let t = s.substring_char(0, i);
    proof {
        assert(s@.subrange(0, i as int) =~= s@.take(i as int));
    }
    t.to_owned()
}

/// Whether two strings hold the same characters.
pub fn str_eq(a: &str, b: &str) -> (r: bool)
    ensures
        r == (a@ == b@),
{
    let n = a.unicode_len();
    let m = b.unicode_len();
    if n != m {
        proof {
            if a@ == b@ {
                assert(a@.len() == b@.len());
            }
        }
        return false;
    }
    let mut i: usize = 0;
    while i < n
        invariant
            n == a@.len(),
            n == b@.len(),
            i <= n,
            forall|j: int| 0 <= j < i ==> a@[j] == b@[j],
        decreases n - i,
    {
        if a.get_char(i) != b.get_char(i) {
            return false;
        }
        i += 1;
    }
    proof {
        assert(a@ =~= b@);
    }
    true
}

/// Whether `s` is all whitespace.
pub fn is_blank_exec(s: &str) -> (r: bool)
    ensures
        r == is_blank(s@),
{
    let i = ws_prefix_end(s);
    let n = s.unicode_len();
    proof {
        if i == n {
            assert(s@.skip(i as int).len() == 0);
        }
    }
    i == n
}

} // verus!
