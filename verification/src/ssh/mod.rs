//! SSH side of the library: connection profiles and the pieces of session
//! handling that decide rather than perform I/O.

use vstd::prelude::*;

pub mod handler;
pub mod profile;
pub mod pty;
pub mod stream;

pub use handler::Handler;
pub use profile::Profile;
pub use stream::ReadBuffer;

verus! {

/// Why an SSH session refused to go on.
#[derive(Debug, PartialEq, Eq, Structural, Clone, Copy)]
pub enum SshError {
    /// The server did not accept the profile's user name and password.
    AuthenticationFailed,
    /// The server refused to forward a remote port.
    ForwardRefused,
}

/// A session is only usable once the server has accepted the password.
pub fn check_authenticated(authenticated: bool) -> (r: Result<(), SshError>)
    ensures
        r is Ok <==> authenticated,
        r is Err ==> r == Err::<(), SshError>(SshError::AuthenticationFailed),
{
    if authenticated {
        Ok(())
    } else {
        Err(SshError::AuthenticationFailed)
    }
}

/// A remote port is listened on only once the server has agreed to forward
/// it.
pub fn check_forward_accepted(accepted: bool) -> (r: Result<(), SshError>)
    ensures
        r is Ok <==> accepted,
        r is Err ==> r == Err::<(), SshError>(SshError::ForwardRefused),
{
    if accepted {
        Ok(())
    } else {
        Err(SshError::ForwardRefused)
    }
}

} // verus!
