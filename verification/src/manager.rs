//! The entry point: a store of profiles, and the plans for the sessions,
//! transports and listeners opened from it.

use vstd::prelude::*;

use crate::session::{acyclic_from, is_plan_for, plan_session, plan_view, SessionError, Transport};
use crate::ssh;
use crate::storage::Storage;

verus! {

/// Where a tunnel listens: on a port of the remote end of a session, or on a
/// local port.
pub enum ListenerSource<P> {
    Remote(P),
    Local,
}

/// The abstract value of a planned transport.
pub open spec fn transport_view(
    r: Result<Transport<Vec<&ssh::Profile>>, SessionError>,
) -> Result<Transport<Seq<ssh::profile::SshProfileSpec>>, SessionError> {
    match r {
        Ok(Transport::Direct) => Ok(Transport::Direct),
        Ok(Transport::JumpHost(p)) => Ok(Transport::JumpHost(crate::session::ssh_views(p@))),
        Err(e) => Err(e),
    }
}

/// The abstract value of a planned listener.
pub open spec fn listener_view(
    r: Result<ListenerSource<Vec<&ssh::Profile>>, SessionError>,
) -> Result<ListenerSource<Seq<ssh::profile::SshProfileSpec>>, SessionError> {
    match r {
        Ok(ListenerSource::Local) => Ok(ListenerSource::Local),
        Ok(ListenerSource::Remote(p)) => Ok(ListenerSource::Remote(crate::session::ssh_views(p@))),
        Err(e) => Err(e),
    }
}

/// Opens sessions, transports and tunnels from the profiles of a store.
#[derive(Clone)]
pub struct Manager<S> {
    storage: S,
}

impl<S> Manager<S> {
    /// The store the manager opens sessions from.
    pub closed spec fn spec_storage(&self) -> S {
        self.storage
    }

    /// A manager over `storage`.
    pub fn new(storage: S) -> (r: Manager<S>)
        ensures
            r.spec_storage() == storage,
    {
        Manager { storage }
    }

    /// The store the manager opens sessions from.
    pub fn storage(&self) -> (r: &S)
        ensures
            *r == self.spec_storage(),
    {
        &self.storage
    }
}

impl<S: Storage> Manager<S> {
    /// Whether the transport references from the profile `id` come back to
    /// a profile already passed, so that no session can be planned for it.
    pub fn transport_cycle(&self, id: &String) -> (r: bool)
        ensures
            r <==> !acyclic_from(self.spec_storage().profiles(), id@),
    {
        crate::session::transport_cycle(&self.storage, id)
    }

    /// The SSH connections that open the session for the profile `id`, in
    /// the order they are made.
    pub fn open_session<'a>(&'a self, id: &String) -> (r: Result<Vec<&'a ssh::Profile>, SessionError>)
        requires
            acyclic_from(self.spec_storage().profiles(), id@),
        ensures
            is_plan_for(self.spec_storage().profiles(), id@, plan_view(r)),
    {
        plan_session(&self.storage, id)
    }

    /// How connections reach their destination: directly without a profile,
    /// or through the session opened for the profile `id`.
    pub fn open_transport<'a>(&'a self, id: Option<&String>) -> (r: Result<
        Transport<Vec<&'a ssh::Profile>>,
        SessionError,
    >)
        requires
            id matches Some(i) ==> acyclic_from(self.spec_storage().profiles(), i@),
        ensures
            id is None ==> (r matches Ok(Transport::Direct)),
            id matches Some(i) ==> match transport_view(r) {
                Ok(Transport::Direct) => false,
                Ok(Transport::JumpHost(p)) => is_plan_for(self.spec_storage().profiles(), i@, Ok(p)),
                Err(e) => is_plan_for(self.spec_storage().profiles(), i@, Err(e)),
            },
    {
        match id {
            Some(id) => {
                let s = self.open_session(id)?;
                Ok(Transport::JumpHost(s))
            },
            None => Ok(Transport::Direct),
        }
    }

    /// Where a tunnel listens: on the remote end of the session opened for
    /// the profile `local`, or, without a profile, on a local port. The HTTP
    /// and the SOCKS tunnel choose their listener alike.
    pub fn open_listener<'a>(&'a self, local: Option<&String>) -> (r: Result<
        ListenerSource<Vec<&'a ssh::Profile>>,
        SessionError,
    >)
        requires
            local matches Some(i) ==> acyclic_from(self.spec_storage().profiles(), i@),
        ensures
            local is None ==> (r matches Ok(ListenerSource::Local)),
            local matches Some(i) ==> match listener_view(r) {
                Ok(ListenerSource::Local) => false,
                Ok(ListenerSource::Remote(p)) => is_plan_for(self.spec_storage().profiles(), i@, Ok(p)),
                Err(e) => is_plan_for(self.spec_storage().profiles(), i@, Err(e)),
            },
    {
        match local {
            Some(id) => {
                let s = self.open_session(id)?;
                Ok(ListenerSource::Remote(s))
            },
            None => Ok(ListenerSource::Local),
        }
    }
}

} // verus!
