use vstd::prelude::*;
use vstd::string::{StrSliceExecFns, StringExecFns};

verus! {

/// The name of the player whose chat message `stop` shuts the server down.
pub open spec fn operator_name() -> Seq<char> {
    "DockerContainer"@
}

/// The code of a character, with the capital letters of ASCII counted as
/// their small ones.
pub open spec fn folded(c: char) -> u32 {
    if 65 <= c as u32 && c as u32 <= 90 {
        (c as u32 + 32) as u32
    } else {
        c as u32
    }
}

/// Whether the two texts are the same but for the case of ASCII letters.
pub open spec fn same_ignoring_case(a: Seq<char>, b: Seq<char>) -> bool {
    a.len() == b.len() && forall|i: int| 0 <= i < a.len() ==> folded(a[i]) == folded(b[i])
}

/// Whether a chat message is the request to shut the server down: the
/// message `stop` from the operator, whose name counts in any case.
pub open spec fn shuts_down(message: Seq<char>, sender: Seq<char>) -> bool {
    message == "stop"@ && same_ignoring_case(sender, operator_name())
}

fn fold(c: char) -> (code: u32)
    ensures
        code == folded(c),
{
    let code: u32 = c as u32;
    if 65 <= code && code <= 90 {
        code + 32
    } else {
        code
    }
}

/// Computes [`same_ignoring_case`].
pub fn eq_ignore_ascii_case(a: &str, b: &str) -> (same: bool)
    ensures
        same == same_ignoring_case(a@, b@),
{
    let len: usize = a.unicode_len();
    if len != b.unicode_len() {
        return false;
    }
    let mut i: usize = 0;
    while i < len
        invariant
            i <= len,
            len == a@.len(),
            len == b@.len(),
            forall|j: int| 0 <= j < i ==> folded(a@[j]) == folded(b@[j]),
        decreases len - i,
    {
        if fold(a.get_char(i)) != fold(b.get_char(i)) {
            return false;
        }
        i += 1;
    }
    true
}

/// Computes [`shuts_down`].
pub fn is_shutdown_request(message: &str, sender: &str) -> (r: bool)
    ensures
        r == shuts_down(message@, sender@),
{
    String::from_str(message) == String::from_str("stop") && eq_ignore_ascii_case(
        sender,
        "DockerContainer",
    )
}

} // verus!
