use vstd::prelude::*;

verus! {

/// The client's answers to what an SSH server asks of it.
pub struct Handler;

impl Handler {
    /// Whether to go on with a server that presented its host key: every
    /// key is accepted.
    pub fn check_server_key(&self) -> (accept: bool)
        ensures
            accept,
    {
        true
    }
}

} // verus!
