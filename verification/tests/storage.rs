use pangpang::profile::{Profile, Protocol};
use pangpang::ssh;
use pangpang::storage::mock::MockStorage;
use pangpang::storage::{Storage, StorageError};

fn ssh_profile(host: &str, port: u16, user: &str, transport: Option<&str>) -> Profile {
    Profile {
        transport: transport.map(|t| t.to_string()),
        protocol: Protocol::Ssh(ssh::Profile {
            host: host.to_string(),
            port,
            username: user.to_string(),
            password: "secret".to_string(),
        }),
    }
}

#[test]
fn mock() {
    let ms = MockStorage::default();
    let mut s = ms.iter().unwrap();
    while let Some(_p) = s.next() {}
}

#[test]
fn get_after_put_returns_profile() {
    let mut ms = MockStorage::new();
    let p = ssh_profile("10.0.0.1", 22, "alice", None);
    let id = p.id();
    assert!(ms.put(p).is_ok());
    let got = ms.get(&id).unwrap();
    assert_eq!(got.id(), "ssh://alice@10.0.0.1:22");
    assert_eq!(got.ssh().host, "10.0.0.1");
}

#[test]
fn get_missing_is_not_found() {
    let ms = MockStorage::new();
    let r = ms.get(&"ssh://nobody@nowhere:22".to_string());
    assert_eq!(r.err(), Some(StorageError::NotFound));
}

#[test]
fn put_same_id_replaces() {
    let mut ms = MockStorage::new();
    ms.put(ssh_profile("h", 22, "u", None)).unwrap();
    ms.put(ssh_profile("h", 22, "u", Some("ssh://j@jump:22"))).unwrap();
    let got = ms.get(&"ssh://u@h:22".to_string()).unwrap();
    assert_eq!(got.transport.as_deref(), Some("ssh://j@jump:22"));
    let mut it = ms.iter().unwrap();
    let mut n = 0;
    while let Some(_) = it.next() {
        n += 1;
    }
    assert_eq!(n, 1);
}

#[test]
fn del_after_put_returns_and_removes() {
    let mut ms = MockStorage::new();
    ms.put(ssh_profile("a", 1, "x", None)).unwrap();
    ms.put(ssh_profile("b", 2, "y", None)).unwrap();
    let removed = ms.del(&"ssh://x@a:1".to_string()).unwrap();
    assert_eq!(removed.ssh().username, "x");
    assert_eq!(ms.get(&"ssh://x@a:1".to_string()).err(), Some(StorageError::NotFound));
    assert!(ms.get(&"ssh://y@b:2".to_string()).is_ok());
    assert_eq!(ms.del(&"ssh://x@a:1".to_string()).err(), Some(StorageError::NotFound));
}

#[test]
fn iter_yields_each_profile_once() {
    let mut ms = MockStorage::new();
    ms.put(ssh_profile("a", 1, "x", None)).unwrap();
    ms.put(ssh_profile("b", 2, "y", None)).unwrap();
    ms.put(ssh_profile("c", 3, "z", None)).unwrap();
    let mut ids = Vec::new();
    let mut it = ms.iter().unwrap();
    while let Some(p) = it.next() {
        ids.push(p.id());
    }
    ids.sort();
    assert_eq!(ids, vec!["ssh://x@a:1", "ssh://y@b:2", "ssh://z@c:3"]);
    assert!(it.next().is_none());
}
