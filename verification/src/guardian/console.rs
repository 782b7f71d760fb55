//! The owner's console.  Prompts and messages are terminal I/O and are
//! performed by the application around the library; the firewalls only
//! hold a console handle and report when the owner must be asked.

use vstd::prelude::*;

verus! {

/// Interactive console for Guardian
pub struct GuardianConsole;

impl GuardianConsole {
    /// Create new console instance
    pub fn new() -> (c: Self)
        ensures
            c == GuardianConsole,
    {
        GuardianConsole
    }
}

impl Default for GuardianConsole {
    fn default() -> (c: Self)
        ensures
            c == GuardianConsole,
    {
        GuardianConsole
    }
}

/// The message with which an owner-approval failure is reported:
/// `"Failed to get owner approval: "` followed by the console's error.
pub open spec fn approval_error_seq(e: Seq<char>) -> Seq<char> {
    "Failed to get owner approval: "@ + e
}

/// Builds the error for a failed owner prompt.
pub fn approval_error(e: &str) -> (r: String)
    ensures
        r@ == approval_error_seq(e@),
{
    let mut r = crate::strlist::owned("Failed to get owner approval: ");
    crate::text::push_str(&mut r, e);
    r
}

/// The owner's choice on a network request, by its place in the menu
/// (allow, block, whitelist, blacklist): whether the request goes ahead.
/// Whitelisting allows it and blacklisting blocks it; any other answer
/// blocks it.
pub fn permission_from_choice(selection: usize) -> (allowed: bool)
    ensures
        allowed == (selection == 0 || selection == 2),
{
    selection == 0 || selection == 2
}

} // verus!
