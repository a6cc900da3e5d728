use pangpang::manager::{ListenerSource, Manager};
use pangpang::profile::{Profile, Protocol};
use pangpang::session::{plan_session, transport_cycle, SessionError, Transport};
use pangpang::ssh;
use pangpang::storage::mock::MockStorage;
use pangpang::storage::Storage;

fn profile(host: &str, user: &str, transport: Option<&str>) -> Profile {
    Profile {
        transport: transport.map(|t| t.to_string()),
        protocol: Protocol::Ssh(ssh::Profile {
            host: host.to_string(),
            port: 22,
            username: user.to_string(),
            password: "pw".to_string(),
        }),
    }
}

fn store(profiles: Vec<Profile>) -> MockStorage {
    let mut ms = MockStorage::new();
    for p in profiles {
        ms.put(p).unwrap();
    }
    ms
}

fn hosts(plan: &[&ssh::Profile]) -> Vec<String> {
    plan.iter().map(|p| p.host.clone()).collect()
}

#[test]
fn direct_profile_plans_one_connection() {
    let ms = store(vec![profile("target", "u", None)]);
    let plan = plan_session(&ms, &"ssh://u@target:22".to_string()).unwrap();
    assert_eq!(hosts(&plan), vec!["target"]);
}

#[test]
fn jump_chain_connects_far_end_first() {
    let ms = store(vec![
        profile("target", "u", Some("ssh://j1@jump1:22")),
        profile("jump1", "j1", Some("ssh://j2@jump2:22")),
        profile("jump2", "j2", None),
    ]);
    let plan = plan_session(&ms, &"ssh://u@target:22".to_string()).unwrap();
    assert_eq!(hosts(&plan), vec!["jump2", "jump1", "target"]);
}

#[test]
fn missing_profile_is_not_found() {
    let ms = store(vec![profile("target", "u", None)]);
    let r = plan_session(&ms, &"ssh://x@elsewhere:22".to_string());
    assert_eq!(r.err(), Some(SessionError::ProfileNotFound));
}

#[test]
fn missing_jump_host_is_not_found() {
    let ms = store(vec![profile("target", "u", Some("ssh://j@gone:22"))]);
    let r = plan_session(&ms, &"ssh://u@target:22".to_string());
    assert_eq!(r.err(), Some(SessionError::ProfileNotFound));
}

#[test]
fn cyclic_transports_are_detected() {
    let ms = store(vec![
        profile("a", "u", Some("ssh://u@b:22")),
        profile("b", "u", Some("ssh://u@a:22")),
    ]);
    assert!(transport_cycle(&ms, &"ssh://u@a:22".to_string()));
    assert!(transport_cycle(&ms, &"ssh://u@b:22".to_string()));
}

#[test]
fn self_transport_is_a_cycle() {
    let ms = store(vec![profile("a", "u", Some("ssh://u@a:22"))]);
    assert!(transport_cycle(&ms, &"ssh://u@a:22".to_string()));
}

#[test]
fn chains_without_loops_are_not_cycles() {
    let ms = store(vec![
        profile("target", "u", Some("ssh://j@jump:22")),
        profile("jump", "j", None),
        profile("lost", "l", Some("ssh://x@gone:22")),
    ]);
    assert!(!transport_cycle(&ms, &"ssh://u@target:22".to_string()));
    assert!(!transport_cycle(&ms, &"ssh://l@lost:22".to_string()));
    assert!(!transport_cycle(&ms, &"ssh://n@nowhere:22".to_string()));
    let cyc = store(vec![profile("a", "u", Some("ssh://u@a:22"))]);
    let mgr = Manager::new(cyc);
    assert!(mgr.transport_cycle(&"ssh://u@a:22".to_string()));
}

#[test]
fn manager_transport_and_listener() {
    let ms = store(vec![
        profile("target", "u", Some("ssh://j@jump:22")),
        profile("jump", "j", None),
    ]);
    let mgr = Manager::new(ms);
    assert!(matches!(mgr.open_transport(None), Ok(Transport::Direct)));
    let id = "ssh://u@target:22".to_string();
    match mgr.open_transport(Some(&id)) {
        Ok(Transport::JumpHost(plan)) => assert_eq!(hosts(&plan), vec!["jump", "target"]),
        _ => panic!("expected a jump-host transport"),
    }
    assert!(matches!(mgr.open_listener(None), Ok(ListenerSource::Local)));
    match mgr.open_listener(Some(&id)) {
        Ok(ListenerSource::Remote(plan)) => assert_eq!(hosts(&plan), vec!["jump", "target"]),
        _ => panic!("expected a remote listener"),
    }
    let missing = "ssh://nobody@x:22".to_string();
    assert_eq!(mgr.open_session(&missing).err(), Some(SessionError::ProfileNotFound));
    assert!(matches!(mgr.open_transport(Some(&missing)), Err(SessionError::ProfileNotFound)));
    assert_eq!(mgr.storage().get(&id).unwrap().ssh().host, "target");
}
