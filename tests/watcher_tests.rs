use httpgate::proxy::{resolve, BackendResult};
use httpgate::registry::DevboxRegistry;
use httpgate::watcher::{
    DevboxObject, DevboxWatcher, PodObject, SessionControl, SyncPhase, WatchEvent,
    RESTART_DELAY_SECS,
};

fn devbox(id: Option<&str>, ns: Option<&str>, name: Option<&str>) -> DevboxObject {
    DevboxObject {
        unique_id: id.map(|s| s.to_string()),
        namespace: ns.map(|s| s.to_string()),
        name: name.map(|s| s.to_string()),
    }
}

fn pod(ns: &str, name: &str, ip: Option<&str>) -> PodObject {
    PodObject {
        namespace: Some(ns.to_string()),
        devbox_name: Some(name.to_string()),
        pod_ip: ip.map(|s| s.to_string()),
    }
}

#[test]
fn end_to_end_resync_then_address_then_delete() {
    let mut registry = DevboxRegistry::new();
    let mut devboxes = DevboxWatcher::new();
    let mut pods = DevboxWatcher::new();

    registry.register_devbox("stale".to_string(), "old".to_string(), "s".to_string());
    assert_eq!(devboxes.handle_event(&mut registry, WatchEvent::Init), SessionControl::Continue);
    assert_eq!(devboxes.phase(), SyncPhase::Resyncing);
    assert!(registry.get("stale").is_none());
    devboxes.handle_event(
        &mut registry,
        WatchEvent::InitApply(devbox(Some("x"), Some("ns1"), Some("x"))),
    );
    devboxes.handle_event(&mut registry, WatchEvent::InitDone);
    assert_eq!(devboxes.phase(), SyncPhase::Live);
    assert!(matches!(resolve(&registry, "x", 8080), BackendResult::NotRunning));

    pods.handle_pod_event(&mut registry, WatchEvent::Apply(pod("ns1", "x", Some("10.0.0.5"))));
    assert!(matches!(
        resolve(&registry, "x", 8080),
        BackendResult::Resolved(ip, 8080) if ip == "10.0.0.5"
    ));

    devboxes.handle_event(&mut registry, WatchEvent::Delete(devbox(Some("x"), None, None)));
    assert!(matches!(resolve(&registry, "x", 8080), BackendResult::NotFound));
}

#[test]
fn malformed_definitions_are_dropped() {
    let mut registry = DevboxRegistry::new();
    let mut w = DevboxWatcher::new();
    w.handle_event(&mut registry, WatchEvent::Apply(devbox(None, Some("ns"), Some("n"))));
    w.handle_event(&mut registry, WatchEvent::Apply(devbox(Some("a"), None, Some("n"))));
    w.handle_event(&mut registry, WatchEvent::Apply(devbox(Some(""), Some("ns"), Some("n"))));
    w.handle_event(&mut registry, WatchEvent::Apply(devbox(Some("a"), Some(""), Some("n"))));
    assert!(registry.is_empty());
    let c = w.handle_event(&mut registry, WatchEvent::Apply(devbox(Some("a"), Some("ns"), None)));
    assert_eq!(c, SessionControl::Continue);
    let info = registry.get("a").unwrap();
    assert_eq!(info.namespace, "ns");
    assert_eq!(info.devbox_name, "");
    w.handle_event(&mut registry, WatchEvent::Delete(devbox(Some("missing"), None, None)));
    w.handle_event(&mut registry, WatchEvent::Delete(devbox(None, None, None)));
    assert_eq!(registry.len(), 1);
}

#[test]
fn stream_error_ends_session() {
    let mut registry = DevboxRegistry::new();
    let mut w = DevboxWatcher::new();
    assert_eq!(w.phase(), SyncPhase::Disconnected);
    w.begin_connect();
    assert_eq!(w.phase(), SyncPhase::Connecting);
    w.connected();
    registry.register_devbox("a".to_string(), "ns".to_string(), "a".to_string());
    let c = w.handle_event(&mut registry, WatchEvent::StreamError);
    assert_eq!(c, SessionControl::Reconnect);
    assert_eq!(w.phase(), SyncPhase::Disconnected);
    assert!(registry.get("a").is_some());
    assert_eq!(w.session_ended(), RESTART_DELAY_SECS);
    assert_eq!(RESTART_DELAY_SECS, 5);
}

#[test]
fn pod_feed_reset_keeps_definitions() {
    let mut registry = DevboxRegistry::new();
    let mut devboxes = DevboxWatcher::new();
    let mut pods = DevboxWatcher::new();
    devboxes.handle_event(&mut registry, WatchEvent::Apply(devbox(Some("a"), Some("ns"), Some("a"))));
    pods.handle_pod_event(&mut registry, WatchEvent::Apply(pod("ns", "a", Some("10.0.0.7"))));
    pods.handle_pod_event(&mut registry, WatchEvent::Init);
    assert!(matches!(resolve(&registry, "a", 1), BackendResult::NotRunning));
    pods.handle_pod_event(&mut registry, WatchEvent::InitApply(pod("ns", "a", Some("10.0.0.8"))));
    pods.handle_pod_event(&mut registry, WatchEvent::InitDone);
    assert!(matches!(
        resolve(&registry, "a", 1),
        BackendResult::Resolved(ip, 1) if ip == "10.0.0.8"
    ));
    pods.handle_pod_event(&mut registry, WatchEvent::Apply(pod("ns", "a", None)));
    assert!(matches!(resolve(&registry, "a", 1), BackendResult::NotRunning));
    pods.handle_pod_event(&mut registry, WatchEvent::Apply(pod("ns", "a", Some("10.0.0.9"))));
    pods.handle_pod_event(&mut registry, WatchEvent::Delete(pod("ns", "a", None)));
    assert!(matches!(resolve(&registry, "a", 1), BackendResult::NotRunning));
    assert_eq!(registry.len(), 1);
}
