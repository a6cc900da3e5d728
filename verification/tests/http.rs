use pangpang::manager::Manager;
use pangpang::session::Transport;
use pangpang::storage::mock::MockStorage;
use pangpang::tunnel::http::{
    forward_action, relay_result, AddrError, ForwardAction, RelayEnd, RelayError, TunnelConnector,
    UriParts,
};
use pangpang::tunnel::StreamConnector;

fn parts(scheme: Option<&str>, host: Option<&str>, port: Option<u16>) -> UriParts {
    UriParts {
        scheme: scheme.map(|s| s.to_string()),
        host: host.map(|s| s.to_string()),
        port,
    }
}

#[test]
fn explicit_port_wins() {
    assert_eq!(
        parts(Some("https"), Some("a.org"), Some(8443)).get_addr(),
        Ok(("a.org".to_string(), 8443))
    );
}

#[test]
fn default_ports_by_scheme() {
    assert_eq!(parts(Some("https"), Some("a.org"), None).get_addr(), Ok(("a.org".to_string(), 443)));
    assert_eq!(parts(Some("http"), Some("a.org"), None).get_addr(), Ok(("a.org".to_string(), 80)));
    assert_eq!(parts(None, Some("a.org"), None).get_addr(), Ok(("a.org".to_string(), 80)));
    assert_eq!(parts(Some("HTTPS"), Some("a.org"), None).get_addr(), Ok(("a.org".to_string(), 80)));
}

#[test]
fn missing_host_is_an_error() {
    assert_eq!(parts(Some("https"), None, Some(1)).get_addr(), Err(AddrError::MissingHost));
}

#[test]
fn connect_is_tunnelled() {
    assert_eq!(forward_action(&"CONNECT".to_string()), ForwardAction::Tunnel);
    assert_eq!(forward_action(&"GET".to_string()), ForwardAction::Proxy);
    assert_eq!(forward_action(&"connect".to_string()), ForwardAction::Proxy);
}

#[test]
fn relay_ends() {
    assert_eq!(relay_result(RelayEnd::Completed), Ok(()));
    assert_eq!(relay_result(RelayEnd::Failed { unexpected_eof: true }), Ok(()));
    assert_eq!(relay_result(RelayEnd::Failed { unexpected_eof: false }), Err(RelayError::Io));
}

#[test]
fn connectors_keep_their_route() {
    let mgr = Manager::new(MockStorage::new());
    let direct = TunnelConnector::new(StreamConnector::new(mgr.clone(), None));
    assert!(matches!(direct.connector().transport(), Ok(Transport::Direct)));
    let via = StreamConnector::new(mgr, Some("ssh://u@h:22".to_string()));
    assert!(!via.transport_cycle());
    assert!(via.transport().is_err());
    assert!(!direct.connector().transport_cycle());
}
