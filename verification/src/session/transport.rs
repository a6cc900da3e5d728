use vstd::prelude::*;

verus! {

/// How a connection reaches its destination: directly, or through a tunnel
/// of an open session.
pub enum Transport<S> {
    Direct,
    JumpHost(S),
}

} // verus!
