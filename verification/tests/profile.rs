use pangpang::profile::{decimal_string, Profile, Protocol};
use pangpang::ssh;

fn profile(host: &str, port: u16, user: &str) -> Profile {
    Profile {
        transport: Some("ssh://j@jump:2222".to_string()),
        protocol: Protocol::Ssh(ssh::Profile {
            host: host.to_string(),
            port,
            username: user.to_string(),
            password: "123456".to_string(),
        }),
    }
}

#[test]
fn id_has_ssh_url_form() {
    assert_eq!(profile("127.0.0.1", 22, "sun").id(), "ssh://sun@127.0.0.1:22");
}

#[test]
fn id_ignores_transport_and_password() {
    let mut p = profile("example.org", 65535, "root");
    assert_eq!(p.id(), "ssh://root@example.org:65535");
    p.transport = None;
    assert_eq!(p.id(), "ssh://root@example.org:65535");
}

#[test]
fn id_with_port_zero() {
    assert_eq!(profile("h", 0, "").id(), "ssh://@h:0");
}

#[test]
fn decimal_writes_ports() {
    assert_eq!(decimal_string(0), "0");
    assert_eq!(decimal_string(7), "7");
    assert_eq!(decimal_string(10), "10");
    assert_eq!(decimal_string(8080), "8080");
    assert_eq!(decimal_string(u16::MAX), "65535");
}

#[test]
fn duplicate_copies_fields() {
    let p = profile("h", 22, "u");
    let q = p.duplicate();
    assert_eq!(q.id(), p.id());
    assert_eq!(q.transport, p.transport);
    assert_eq!(q.ssh().password, "123456");
}

#[test]
fn ids_tell_endpoints_apart() {
    assert_eq!(profile("h:1", 2, "u").id(), "ssh://u@h:1:2");
    assert_ne!(profile("h:1", 2, "u").id(), profile("h", 12, "u").id());
    assert_ne!(profile("b", 22, "a").id(), profile("a@b", 22, "").id());
    assert_eq!(profile("h", 22, "u").id(), profile("h", 22, "u").id());
}
