//! Tunnels: the HTTP proxy and the SOCKS5 server, and how they reach the
//! destinations their clients ask for.

use vstd::prelude::*;

use crate::manager::{transport_view, Manager};
use crate::session::{acyclic_from, is_plan_for, SessionError, Transport};
use crate::ssh;
use crate::storage::Storage;

pub mod http;
pub mod socks;

verus! {

/// Opens connections to the destinations of a tunnel's clients, through
/// the session of the profile `id` or, without one, directly.
#[derive(Clone)]
pub struct StreamConnector<S> {
    mgr: Manager<S>,
    id: Option<String>,
}

impl<S> StreamConnector<S> {
    /// The manager the connector opens sessions with.
    pub closed spec fn spec_manager(&self) -> Manager<S> {
        self.mgr
    }

    /// The profile whose session carries the connections, if any.
    pub closed spec fn spec_id(&self) -> Option<Seq<char>> {
        crate::profile::option_string_view(self.id)
    }

    /// A connector that reaches destinations through the profile `id`.
    pub fn new(mgr: Manager<S>, id: Option<String>) -> (r: StreamConnector<S>)
        ensures
            r.spec_manager() == mgr,
            r.spec_id() == crate::profile::option_string_view(id),
    {
        StreamConnector { mgr, id }
    }
}

impl<S: Storage> StreamConnector<S> {
    /// Whether the connector's profile has transport references that come
    /// back to a profile already passed.
    pub fn transport_cycle(&self) -> (r: bool)
        ensures
            r <==> (self.spec_id() matches Some(i) && !acyclic_from(
                self.spec_manager().spec_storage().profiles(),
                i,
            )),
    {
        match &self.id {
            Some(id) => self.mgr.transport_cycle(id),
            None => false,
        }
    }

    /// The transport a connection of this connector goes through.
    pub fn transport<'a>(&'a self) -> (r: Result<Transport<Vec<&'a ssh::Profile>>, SessionError>)
        requires
            self.spec_id() matches Some(i) ==> acyclic_from(
                self.spec_manager().spec_storage().profiles(),
                i,
            ),
        ensures
            self.spec_id() is None ==> (r matches Ok(Transport::Direct)),
            self.spec_id() matches Some(i) ==> match transport_view(r) {
                Ok(Transport::Direct) => false,
                Ok(Transport::JumpHost(p)) => is_plan_for(
                    self.spec_manager().spec_storage().profiles(),
                    i,
                    Ok(p),
                ),
                Err(e) => is_plan_for(self.spec_manager().spec_storage().profiles(), i, Err(e)),
            },
    {
        self.mgr.open_transport(self.id.as_ref())
    }
}

} // verus!
