use vstd::prelude::*;

verus! {

/// The abstract value of an SSH connection profile.
pub struct SshProfileSpec {
    pub host: Seq<char>,
    pub port: u16,
    pub username: Seq<char>,
    pub password: Seq<char>,
}

/// Where and as whom to open an SSH connection.
#[derive(Clone, Debug)]
pub struct Profile {
    pub host: String,
    pub port: u16,
    pub username: String,
    pub password: String,
}

impl View for Profile {
    type V = SshProfileSpec;

    open spec fn view(&self) -> SshProfileSpec {
        SshProfileSpec {
            host: self.host@,
            port: self.port,
            username: self.username@,
            password: self.password@,
        }
    }
}

impl Profile {
    /// A field-by-field copy of the profile.
    pub fn duplicate(&self) -> (r: Profile)
        ensures
            r@ == self@,
    {
        Profile {
            host: self.host.clone(),
            port: self.port,
            username: self.username.clone(),
            password: self.password.clone(),
        }
    }
}

} // verus!
