use pangpang::tunnel::socks::{
    on_accept, AcceptAction, AcceptEvent, Command, Next, Phase, Request, SocksError, SocksSession,
};

#[test]
fn greeting_without_auth_is_accepted() {
    let mut s = SocksSession::new();
    let a = s.on_greeting(&vec![0x02, 0x00]);
    assert_eq!(a.reply, Some(vec![5, 0]));
    assert!(matches!(a.next, Next::ReadRequest));
    assert_eq!(s.current_phase(), Phase::Requesting);
}

#[test]
fn greeting_without_none_method_is_refused() {
    let mut s = SocksSession::new();
    let a = s.on_greeting(&vec![0x02]);
    assert_eq!(a.reply, Some(vec![5, 0xff]));
    assert!(matches!(a.next, Next::Close(Err(SocksError::NoAcceptableMethod))));
    assert_eq!(s.current_phase(), Phase::Finished);
}

fn requesting() -> SocksSession {
    let mut s = SocksSession::new();
    s.on_greeting(&vec![0x00]);
    s
}

#[test]
fn bad_request_gets_general_failure() {
    let mut s = requesting();
    let a = s.on_request(Err(()));
    assert_eq!(a.reply, Some(vec![5, 1, 0, 1, 0, 0, 0, 0, 0, 0]));
    assert!(matches!(a.next, Next::Close(Err(SocksError::BadRequest))));
}

#[test]
fn other_commands_are_not_supported() {
    let mut s = requesting();
    let a = s.on_request(Ok(Request { command: Command::Bind, host: "h".to_string(), port: 1 }));
    assert_eq!(a.reply, Some(vec![5, 7, 0, 1, 0, 0, 0, 0, 0, 0]));
    assert!(matches!(a.next, Next::Close(Ok(()))));
    assert_eq!(s.current_phase(), Phase::Finished);
}

#[test]
fn connect_then_relay() {
    let mut s = requesting();
    let a = s.on_request(Ok(Request {
        command: Command::Connect,
        host: "example.org".to_string(),
        port: 443,
    }));
    assert_eq!(a.reply, None);
    match a.next {
        Next::Connect { host, port } => {
            assert_eq!(host, "example.org");
            assert_eq!(port, 443);
        }
        _ => panic!("expected a connection"),
    }
    assert_eq!(s.current_phase(), Phase::Connecting);
    let b = s.on_connected(true);
    assert_eq!(b.reply, Some(vec![5, 0, 0, 1, 0, 0, 0, 0, 0, 0]));
    assert!(matches!(b.next, Next::Relay));
    assert_eq!(s.current_phase(), Phase::Relaying);
}

#[test]
fn failed_connect_is_network_unreachable() {
    let mut s = requesting();
    s.on_request(Ok(Request { command: Command::Connect, host: "h".to_string(), port: 80 }));
    let b = s.on_connected(false);
    assert_eq!(b.reply, Some(vec![5, 3, 0, 1, 0, 0, 0, 0, 0, 0]));
    assert!(matches!(b.next, Next::Close(Err(SocksError::ConnectFailed))));
}

#[test]
fn accept_loop_decisions() {
    assert_eq!(on_accept(AcceptEvent::Accepted), AcceptAction::Serve);
    assert_eq!(on_accept(AcceptEvent::Failed), AcceptAction::Stop);
    assert_eq!(on_accept(AcceptEvent::Shutdown), AcceptAction::Stop);
}
