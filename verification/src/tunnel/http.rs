//! The HTTP side of the tunnels: which requests are tunnelled, and where a
//! proxied request goes.

use vstd::prelude::*;
use vstd::string::*;

use super::StreamConnector;

verus! {

/// The parts of a request's URI that tell where it goes.
pub struct UriParts {
    pub scheme: Option<String>,
    pub host: Option<String>,
    pub port: Option<u16>,
}

/// Why a URI names no destination.
#[derive(Debug, PartialEq, Eq, Structural, Clone, Copy)]
pub enum AddrError {
    /// The URI has no host.
    MissingHost,
}

pub open spec fn https_scheme() -> Seq<char> {
    seq!['h', 't', 't', 'p', 's']
}

/// The port a URI names: its explicit port, else 443 for `https` and 80
/// for any other scheme or none.
pub open spec fn uri_port(scheme: Option<Seq<char>>, port: Option<u16>) -> u16 {
    match port {
        Some(p) => p,
        None => if scheme == Some(https_scheme()) {
            443
        } else {
            80
        },
    }
}

/// An explicit port is always the one used, whatever the scheme; without
/// one, `https` goes to 443 and every other scheme, or none, to 80.
pub proof fn law_uri_port(scheme: Option<Seq<char>>, port: Option<u16>)
    ensures
        port matches Some(p) ==> uri_port(scheme, port) == p,
        port is None && scheme == Some(seq!['h', 't', 't', 'p', 's']) ==> uri_port(scheme, port)
            == 443,
        port is None && scheme != Some(seq!['h', 't', 't', 'p', 's']) ==> uri_port(scheme, port)
            == 80,
{
}

impl UriParts {
    /// The host and port a request goes to.
    pub fn get_addr(&self) -> (r: Result<(String, u16), AddrError>)
        ensures
            self.host is None <==> r is Err,
            r matches Err(e) ==> e == AddrError::MissingHost,
            r matches Ok((h, p)) ==> h@ == self.host->0@ && p == uri_port(
                crate::profile::option_string_view(self.scheme),
                self.port,
            ),
            match r {
                Ok((_, p)) => match self.port {
                    Some(q) => p == q,
                    None => p == 443 || p == 80,
                },
                Err(_) => true,
            },
    {
        let host = match &self.host {
            Some(h) => h.clone(),
            None => return Err(AddrError::MissingHost),
        };
        let port: u16 = match self.port {
            Some(p) => p,
            None => {
                proof {
                    reveal_strlit("https");
                    assert("https"@ =~= https_scheme());
                }
                let https = String::from_str("https");
                let is_https = match &self.scheme {
                    Some(s) => *s == https,
                    None => false,
                };
                if is_https {
                    443
                } else {
                    80
                }
            },
        };
        Ok((host, port))
    }
}

/// How the proxy serves a request.
#[derive(Debug, PartialEq, Eq, Structural, Clone, Copy)]
pub enum ForwardAction {
    /// Answer at once with an empty response, then tunnel the upgraded
    /// connection to the requested host.
    Tunnel,
    /// Send the request on and answer with the response.
    Proxy,
}

pub open spec fn connect_method() -> Seq<char> {
    seq!['C', 'O', 'N', 'N', 'E', 'C', 'T']
}

/// CONNECT requests are tunnelled, all others proxied.
pub fn forward_action(method: &String) -> (r: ForwardAction)
    ensures
        r == ForwardAction::Tunnel <==> method@ == connect_method(),
{
    proof {
        reveal_strlit("CONNECT");
        assert("CONNECT"@ =~= connect_method());
    }
    let connect = String::from_str("CONNECT");
    if *method == connect {
        ForwardAction::Tunnel
    } else {
        ForwardAction::Proxy
    }
}

/// How relaying the data of a tunnelled connection ended.
pub enum RelayEnd {
    /// Both directions were copied to the end.
    Completed,
    /// Copying failed; `unexpected_eof` tells whether because a side ended
    /// early.
    Failed { unexpected_eof: bool },
}

/// Why a tunnelled connection failed.
#[derive(Debug, PartialEq, Eq, Structural, Clone, Copy)]
pub enum RelayError {
    Io,
}

/// A tunnel whose peer hangs up early has still done its work; any other
/// failure to copy is an error.
pub fn relay_result(end: RelayEnd) -> (r: Result<(), RelayError>)
    ensures
        r is Err <==> (end matches RelayEnd::Failed { unexpected_eof } && !unexpected_eof),
{
    match end {
        RelayEnd::Completed => Ok(()),
        RelayEnd::Failed { unexpected_eof } => if unexpected_eof {
            Ok(())
        } else {
            Err(RelayError::Io)
        },
    }
}

/// The connector the HTTP proxy's client opens its connections with.
#[derive(Clone)]
pub struct TunnelConnector<S> {
    connector: StreamConnector<S>,
}

impl<S> TunnelConnector<S> {
    /// The connector that opens the connections.
    pub closed spec fn spec_connector(&self) -> StreamConnector<S> {
        self.connector
    }

    /// A connector for the proxy's client that opens connections with
    /// `connector`.
    pub fn new(connector: StreamConnector<S>) -> (r: TunnelConnector<S>)
        ensures
            r.spec_connector() == connector,
    {
        TunnelConnector { connector }
    }

    /// The connector that opens the connections.
    pub fn connector(&self) -> (r: &StreamConnector<S>)
        ensures
            *r == self.spec_connector(),
    {
        &self.connector
    }
}

} // verus!
