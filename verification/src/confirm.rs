//! The interactive confirmation for `empty`.
//!
//! Emptying the stash asks the user to type the exact token `yes`;
//! surrounding ASCII whitespace is ignored, nothing else is forgiven
//! (no case folding). Any other input cancels.

use vstd::prelude::*;

verus! {

/// An ASCII whitespace character: space, tab, line feed or carriage return.
pub open spec fn is_ascii_ws(c: char) -> bool {
    c == ' ' || c == '\t' || c == '\n' || c == '\r'
}

/// `s` without its leading ASCII whitespace.
pub open spec fn trim_front(s: Seq<char>) -> Seq<char>
    decreases s.len(),
{
    if s.len() > 0 && is_ascii_ws(s[0]) {
        trim_front(s.skip(1))
    } else {
        s
    }
}

/// `s` without its trailing ASCII whitespace.
pub open spec fn trim_back(s: Seq<char>) -> Seq<char>
    decreases s.len(),
{
    if s.len() > 0 && is_ascii_ws(s.last()) {
        trim_back(s.drop_last())
    } else {
        s
    }
}

/// `s` without surrounding ASCII whitespace.
pub open spec fn trimmed(s: Seq<char>) -> Seq<char> {
    trim_back(trim_front(s))
}

/// The input confirms the deletion: exactly `yes` once surrounding
/// whitespace is dropped.
pub open spec fn is_confirmation(s: Seq<char>) -> bool {
    trimmed(s) == seq!['y', 'e', 's']
}

/// Trimming the front of `s` keeps `s.skip(i)` where the first `i`
/// characters are whitespace and the next one, if any, is not.
proof fn lemma_trim_front_skip(s: Seq<char>, i: int)
    requires
        0 <= i <= s.len(),
        forall|j: int| 0 <= j < i ==> is_ascii_ws(#[trigger] s[j]),
        i < s.len() ==> !is_ascii_ws(s[i]),
    ensures
        trim_front(s) == s.skip(i),
    decreases i,
{
    if i == 0 {
        assert(s.skip(0) =~= s);
    } else {
        assert(is_ascii_ws(s[0]));
        lemma_trim_front_skip(s.skip(1), i - 1);
        assert(s.skip(1).skip(i - 1) =~= s.skip(i));
    }
}

/// Trimming the back of `s` keeps `s.take(e)` where everything from
/// position `e` on is whitespace and the character before it, if any,
/// is not.
proof fn lemma_trim_back_take(s: Seq<char>, e: int)
    requires
        0 <= e <= s.len(),
        forall|j: int| e <= j < s.len() ==> is_ascii_ws(#[trigger] s[j]),
        e > 0 ==> !is_ascii_ws(s[e - 1]),
    ensures
        trim_back(s) == s.take(e),
    decreases s.len(),
{
    if e == s.len() {
        assert(s.take(e) =~= s);
    } else {
        assert(is_ascii_ws(s.last()));
        lemma_trim_back_take(s.drop_last(), e);
        assert(s.drop_last().take(e) =~= s.take(e));
    }
}

/// Decides whether a typed line confirms the deletion: the exact token
/// `yes`, surrounding ASCII whitespace aside.
pub fn confirmation_given(input: &str) -> (r: bool)
    ensures
        r == is_confirmation(input@),
{
    let len = input.unicode_len();
    let mut start: usize = 0;
    while start < len && is_ws_char(input.get_char(start))
        invariant
            len == input@.len(),
            0 <= start <= len,
            forall|j: int| 0 <= j < start ==> is_ascii_ws(#[trigger] input@[j]),
        decreases len - start,
    {
        start = start + 1;
    }
    let mut end: usize = len;
    while end > start && is_ws_char(input.get_char(end - 1))
        invariant
            len == input@.len(),
            start <= end <= len,
            forall|j: int| end <= j < len ==> is_ascii_ws(#[trigger] input@[j]),
        decreases end,
    {
        end = end - 1;
    }
    proof {
        lemma_trim_front_skip(input@, start as int);
        let t = input@.skip(start as int);
        lemma_trim_back_take(t, end - start);
        assert(trimmed(input@) == t.take(end - start));
    }
    if end - start != 3 {
        proof {
            assert(trimmed(input@).len() == end - start);
        }
        return false;
    }
    let c0 = input.get_char(start);
    let c1 = input.get_char(start + 1);
    let c2 = input.get_char(start + 2);
    let r = c0 == 'y' && c1 == 'e' && c2 == 's';
    proof {
        let t = trimmed(input@);
        assert(t.len() == 3);
        assert(t[0] == input@[start as int]);
        assert(t[1] == input@[start as int + 1]);
        assert(t[2] == input@[start as int + 2]);
        if r {
            assert(t =~= seq!['y', 'e', 's']);
        } else {
            assert(t != seq!['y', 'e', 's']);
        }
    }
    r
}

/// Decides whether `c` is ASCII whitespace.
fn is_ws_char(c: char) -> (r: bool)
    ensures
        r == is_ascii_ws(c),
{
    c == ' ' || c == '\t' || c == '\n' || c == '\r'
}

} // verus!
