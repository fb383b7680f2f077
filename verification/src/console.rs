//! Chat commands.
use crate::gamemode::{str_trimmed, trim};
use vstd::prelude::*;

verus! {

/// Whether a chat message is a command: it starts with a slash once the
/// blanks around it are dropped.
pub fn is_slash_command(message: &str) -> (r: bool)
    ensures
        r == (str_trimmed(message@).len() > 0 && str_trimmed(message@)[0] == '/'),
{
    let t = trim(message);
    let mut chars = t.chars();
    match chars.next() {
        Some(c) => c == '/',
        None => false,
    }
}

} // verus!
