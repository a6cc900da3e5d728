use pangpang::ssh::pty::{pty_request, window_change_size};
use pangpang::ssh::{check_authenticated, check_forward_accepted, Handler, SshError};
use pangpang::terminal::WindowSize;

#[test]
fn every_server_key_is_accepted() {
    assert!(Handler.check_server_key());
}

#[test]
fn authentication_and_forwarding_outcomes() {
    assert_eq!(check_authenticated(true), Ok(()));
    assert_eq!(check_authenticated(false), Err(SshError::AuthenticationFailed));
    assert_eq!(check_forward_accepted(true), Ok(()));
    assert_eq!(check_forward_accepted(false), Err(SshError::ForwardRefused));
}

#[test]
fn pty_is_requested_as_xterm() {
    let r = pty_request();
    assert_eq!(r.term, "xterm-color256");
    assert_eq!((r.col_width, r.row_height, r.pix_width, r.pix_height), (80, 30, 1, 1));
    assert!(!r.want_reply);
}

#[test]
fn window_change_widens_sizes() {
    assert_eq!(window_change_size(120, 40), (120, 40));
    assert_eq!(window_change_size(-1, i16::MIN), (4294967295, 4294934528));
}

#[test]
fn local_window_sizes() {
    let w = WindowSize::initial();
    assert_eq!((w.num_cols, w.num_lines, w.cell_width, w.cell_height), (80, 20, 1, 1));
    let r = WindowSize::resized(132, 43);
    assert_eq!(r, WindowSize { num_cols: 132, num_lines: 43, cell_width: 1, cell_height: 1 });
}
