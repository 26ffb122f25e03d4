//! Key validation: the naming contract for stash keys.
//!
//! A key identifies one stored item. It must be 1 to 30 characters long and
//! consist only of lowercase ASCII letters, digits, underscores and hyphens.
//! Since `/` and `.` are excluded, a valid key can never name a path outside
//! the stash root when joined to it.

use vstd::prelude::*;

verus! {

/// Greatest number of characters a key may have.
pub const KEY_MAX_CHARS: usize = 30;

/// A character allowed in a key: lowercase ASCII letter, digit,
/// underscore or hyphen.
pub open spec fn is_valid_key_char(c: char) -> bool {
    ('a' <= c && c <= 'z') || ('0' <= c && c <= '9') || c == '_' || c == '-'
}

/// A well-formed key: 1 to 30 characters, all from the allowed class.
pub open spec fn is_valid_key(s: Seq<char>) -> bool {
    &&& 1 <= s.len() <= KEY_MAX_CHARS
    &&& forall|i: int| 0 <= i < s.len() ==> is_valid_key_char(#[trigger] s[i])
}

/// Decides whether `candidate` is a well-formed key. Rejection, not
/// correction: no trimming and no case folding is performed.
pub fn validate_key(candidate: &str) -> (valid: bool)
    ensures
        valid == is_valid_key(candidate@),
{
    let len = candidate.unicode_len();
    if len < 1 || len > KEY_MAX_CHARS {
        return false;
    }
    let mut i: usize = 0;
    while i < len
        invariant
            len == candidate@.len(),
            0 <= i <= len,
            forall|j: int| 0 <= j < i ==> is_valid_key_char(#[trigger] candidate@[j]),
        decreases len - i,
    {
        let c = candidate.get_char(i);
        if !(('a' <= c && c <= 'z') || ('0' <= c && c <= '9') || c == '_' || c == '-') {
            return false;
        }
        i = i + 1;
    }
    true
}

} // verus!
