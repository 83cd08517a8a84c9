//! The convention that marks a fenced block as a runnable example: its info
//! string is `bash,<session>`.

use vstd::prelude::*;

verus! {

/// What an info string must start with to tag its block: the shell's name and
/// the comma that sets the session name off.
pub open spec fn tag_prefix() -> Seq<char> {
    seq!['b', 'a', 's', 'h', ',']
}

/// The session that the info string `info` names, if it tags its block.
///
/// Everything after the first comma is the name, further commas included; an
/// empty name is a name. An info string without the comma names no session.
pub open spec fn session_name(info: Seq<char>) -> Option<Seq<char>> {
    if info.len() >= 5 && info.take(5) == tag_prefix() {
        Some(info.skip(5))
    } else {
        None
    }
}

/// Whether `info` tags its block as a runnable example.
pub open spec fn is_tagged(info: Seq<char>) -> bool {
    session_name(info) is Some
}

/// Reads the session name off an info string.
pub fn session_of(info: &str) -> (name: Option<String>)
    ensures
        match name {
            Some(n) => session_name(info@) == Some(n@),
            None => session_name(info@) is None,
        },
{
    let len: usize = info.unicode_len();
    if len >= 5 && info.get_char(0) == 'b' && info.get_char(1) == 'a' && info.get_char(2) == 's'
        && info.get_char(3) == 'h' && info.get_char(4) == ',' {
        assert(info@.take(5) == tag_prefix());
        assert(info@.subrange(5, len as int) == info@.skip(5));
        Some(String::from_str(info.substring_char(5, len)))
    } else {
        assert(info@.len() >= 5 ==> info@.take(5)[0] == info@[0] && info@.take(5)[1] == info@[1]
            && info@.take(5)[2] == info@[2] && info@.take(5)[3] == info@[3] && info@.take(5)[4]
            == info@[4]);
        None
    }
}

} // verus!
