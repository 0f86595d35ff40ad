use vstd::prelude::*;

verus! {

/// An error carrying a human readable description of what went wrong.
#[derive(Debug)]
pub struct Error(pub String);

/// Builds an error from a message.
pub fn mk_err(msg: &str) -> (e: Error)
    ensures
        e.0@ == msg@,
{
    Error(msg.to_string())
}

} // verus!
