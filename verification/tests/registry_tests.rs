use eva_ics::repl_calls::{
    check_not_local, exports_all, ps_call, ps_item_oid, ps_rpvt_url, repl_method, split_bus_call,
    ParamValue, PsCall, ReplCallError, ReplMethod,
};
use eva_ics::expiration::{next_tick, ItemWatch, Watchers};
use eva_ics::nodes::{
    Discovery, MarkOutcome, Node, NodeDefaults, NodeError, NodeRegistry, NodeStatus,
};
use eva_ics::token::TokenId;
use eva_ics::tracing::{check_owner, owner_of, MutexInfo};
use eva_ics::websockets::{SentStates, TokenSockets, WsBuffer, WsTopic};
use std::time::{Duration, Instant};

fn defaults() -> NodeDefaults {
    NodeDefaults {
        ping_interval: Duration::from_secs(10),
        reload_interval: Duration::from_secs(60),
        timeout: Duration::from_secs(5),
        key_id: "default".to_string(),
    }
}

#[test]
fn discovered_node_is_added_once() {
    let mut reg = NodeRegistry::new();
    let d = defaults();
    assert!(matches!(reg.append_discovered_node("me", "me", true, &d), Discovery::Own));
    assert!(matches!(reg.append_discovered_node("n1", "me", false, &d), Discovery::Refused));
    assert!(!reg.contains("n1"));
    match reg.append_discovered_node("n1", "me", true, &d) {
        Discovery::Appended(e) => {
            assert!(e.start_tasks);
            assert_eq!(e.events, vec![NodeStatus::Offline]);
            assert!(e.replaced.is_none());
        }
        _ => panic!("appended"),
    }
    let n = reg.get("n1").unwrap();
    assert_eq!(n.key_id(), "default");
    assert!(!n.online());
    assert!(!n.is_static());
    assert!(matches!(reg.append_discovered_node("n1", "me", true, &d), Discovery::TriggerReload));
}

#[test]
fn disabled_node_is_reported_removed_then_offline() {
    let mut reg = NodeRegistry::new();
    let n = Node::configured(
        "n2",
        Duration::from_secs(1),
        Duration::from_secs(2),
        true,
        false,
        Duration::from_secs(3),
        false,
        "k",
        Some("admin".to_string()),
    );
    let e = reg.append_node(n);
    assert!(!e.start_tasks);
    assert_eq!(e.events, vec![NodeStatus::Removed, NodeStatus::Offline]);
    assert!(reg.get("n2").unwrap().managed());
}

#[test]
fn marking_a_dynamic_node_offline_removes_it() {
    let mut reg = NodeRegistry::new();
    let d = defaults();
    reg.append_discovered_node("n1", "me", true, &d);
    let now = Instant::now();
    assert!(matches!(
        reg.mark_node("n1", true, false, now, "ST/"),
        MarkOutcome::Publish(NodeStatus::Online)
    ));
    assert!(reg.get("n1").unwrap().online());
    assert!(reg.get("n1").unwrap().link_uptime().is_some());
    assert!(matches!(
        reg.mark_node("n1", true, false, now, "ST/"),
        MarkOutcome::Publish(NodeStatus::Online)
    ));
    match reg.mark_node("n1", false, false, now, "ST/") {
        MarkOutcome::Removed(r) => assert_eq!(r.node.name(), "n1"),
        _ => panic!("removed"),
    }
    assert!(!reg.contains("n1"));
    assert!(matches!(reg.mark_node("n1", false, false, now, "ST/"), MarkOutcome::Nothing));
    assert!(matches!(
        reg.mark_node("n1", false, true, now, "ST/"),
        MarkOutcome::Publish(NodeStatus::Offline)
    ));
}

#[test]
fn static_node_stays_when_offline() {
    let mut reg = NodeRegistry::new();
    let mut n = Node::new("s1", false, &defaults());
    n.set_static();
    let (removed, e) = reg.append_static_node(n, "ST/");
    assert!(removed.is_none());
    assert!(e.start_tasks);
    let now = Instant::now();
    reg.mark_node("s1", true, false, now, "ST/");
    assert!(matches!(
        reg.mark_node("s1", false, false, now, "ST/"),
        MarkOutcome::Publish(NodeStatus::Offline)
    ));
    assert!(reg.contains("s1"));
    assert!(reg.get("s1").unwrap().link_uptime().is_none());
}

#[test]
fn reload_follows_listed_items() {
    let mut reg = NodeRegistry::new();
    reg.append_discovered_node("n1", "me", true, &defaults());
    let now = Instant::now();
    let items = vec!["sensor/a".to_string(), "sensor/b".to_string(), "sensor/a".to_string()];
    let ch = reg
        .record_reload("n1", "4.0.2".to_string(), 2024, Some(items), true, now, "ST/")
        .unwrap();
    assert_eq!(ch.subscribe, vec!["ST/sensor/a".to_string(), "ST/sensor/b".to_string()]);
    assert!(ch.unsubscribe.is_empty());
    let ch = reg
        .record_reload("n1", "4.0.2".to_string(), 2025, Some(vec!["sensor/b".to_string(), "unit/c".to_string()]), true, now, "ST/")
        .unwrap();
    assert_eq!(ch.subscribe, vec!["ST/unit/c".to_string()]);
    assert_eq!(ch.unsubscribe, vec!["ST/sensor/a".to_string()]);
    let n = reg.get("n1").unwrap();
    assert_eq!(n.oids(), &vec!["sensor/b".to_string(), "unit/c".to_string()]);
    assert_eq!(n.info(), Some(("4.0.2", 2025)));
    assert!(n.last_reload().is_some());
    let ch = reg
        .record_reload("n1", "4.0.2".to_string(), 2026, Some(vec![]), false, now, "ST/")
        .unwrap();
    assert!(ch.subscribe.is_empty() && ch.unsubscribe.is_empty());
    assert_eq!(reg.get("n1").unwrap().oids().len(), 2);
    assert!(matches!(
        reg.record_reload("zz", "v".to_string(), 1, None, true, now, "ST/"),
        Err(NodeError::NotFound)
    ));
}

#[test]
fn removing_gives_topics() {
    let mut reg = NodeRegistry::new();
    reg.append_discovered_node("n1", "me", true, &defaults());
    let now = Instant::now();
    reg.record_reload("n1", "v".to_string(), 1, Some(vec!["x/y".to_string()]), true, now, "ST/")
        .unwrap();
    let r = reg.remove_node("n1", "ST/").unwrap();
    assert_eq!(r.unsubscribe, vec!["ST/x/y".to_string()]);
    assert!(matches!(reg.remove_node("n1", "ST/"), Err(NodeError::NotFound)));
}

#[test]
fn expiration_marks_once_until_reported() {
    let mut w = Watchers::new();
    w.insert(ItemWatch::new("sensor/a", false, 10, 0));
    w.insert(ItemWatch::new("lvar/b", true, 100, 0));
    assert!(w.collect_expired(5).is_empty());
    assert_eq!(w.collect_expired(10), vec!["sensor/a".to_string()]);
    assert!(w.collect_expired(20).is_empty());
    assert!(w.handle_topic("RAW/sensor/a", "RAW/", "ST/LOC/", 21));
    assert!(!w.handle_topic("RAW/unknown", "RAW/", "ST/LOC/", 21));
    assert!(!w.handle_topic("OTHER/sensor/a", "RAW/", "ST/LOC/", 21));
    assert!(w.collect_expired(25).is_empty());
    assert_eq!(w.collect_expired(31), vec!["sensor/a".to_string()]);
    assert_eq!(
        w.topics("RAW/", "ST/LOC/"),
        vec!["RAW/sensor/a".to_string(), "ST/LOC/lvar/b".to_string()]
    );
    let watch = ItemWatch::new("x", false, 5, 10);
    assert!(!watch.is_expired(3));
    assert!(watch.is_expired(15));
}

#[test]
fn checker_loop_catches_up() {
    assert_eq!(next_tick(100, 10, 105), (110, 5));
    assert_eq!(next_tick(100, 10, 135), (140, 5));
    assert_eq!(next_tick(100, 10, 140), (140, 0));
    assert_eq!(next_tick(100, 10, 50), (110, 60));
}

#[test]
fn sockets_are_kept_per_token() {
    let t1 = TokenId::new(vec![1; 16], "salt1".to_string());
    let t2 = TokenId::new(vec![2; 16], "salt2".to_string());
    let mut s = TokenSockets::new();
    s.register(&t1, 10);
    s.register(&t1, 11);
    s.register(&t1, 10);
    s.register(&t2, 20);
    assert!(s.unregister(&t1, 11));
    assert!(!s.unregister(&t2, 11));
    let mut removed = s.remove_token(&t1);
    removed.sort();
    assert_eq!(removed, vec![10, 11]);
    assert!(s.remove_token(&t1).is_empty());
    assert_eq!(s.remove_token(&t2), vec![20]);
}

#[test]
fn mutex_info_compares_by_name() {
    let a = MutexInfo::new("alpha", Some("worker1".to_string()));
    let b = MutexInfo::new("alpha", None);
    let c = MutexInfo::new("beta", None);
    assert!(a == b);
    assert!(a != c);
    assert!(a < c);
    assert_eq!(a.owner(), Some("worker1"));
    assert_eq!(c.name(), "beta");
    assert_eq!(owner_of(0), None);
    assert_eq!(owner_of(7), Some(7));
    check_owner(1);
}

#[test]
fn sockets_of_dropped_tokens_are_closed() {
    let t1 = TokenId::new(vec![1u8; 16], "a".to_string());
    let t2 = TokenId::new(vec![2u8; 16], "b".to_string());
    let t3 = TokenId::new(vec![3u8; 16], "c".to_string());
    let mut s = TokenSockets::new();
    s.register(&t1, 10);
    s.register(&t2, 20);
    s.register(&t2, 21);
    s.register(&t3, 30);
    let closed = s.drop_unknown(&vec![t1.duplicate()]);
    assert_eq!(closed, vec![20, 21, 30]);
    assert!(s.remove_token(&t2).is_empty());
    assert_eq!(s.remove_token(&t1), vec![10]);
    assert!(s.drop_unknown(&Vec::new()).is_empty());
}

#[test]
fn local_bus_calls_are_routed() {
    assert_eq!(repl_method("lvar.incr"), ReplMethod::Forward);
    assert_eq!(repl_method("rpvt"), ReplMethod::Forward);
    assert_eq!(repl_method("node.list"), ReplMethod::NodeList);
    assert_eq!(repl_method("node.get_config"), ReplMethod::NodeGetConfig);
    assert_eq!(repl_method("node.mtest"), ReplMethod::NodeMtest);
    assert_eq!(repl_method("bus::eva.core::test"), ReplMethod::ForwardBus);
    assert_eq!(repl_method("test"), ReplMethod::Default);
    assert_eq!(check_not_local("n1", "n1"), Err(ReplCallError::LocalNode));
    assert_eq!(check_not_local("n2", "n1"), Ok(()));
    assert!(exports_all("*") && exports_all("#") && !exports_all("n1"));
}

#[test]
fn pubsub_calls_are_checked() {
    assert_eq!(ps_call(false, true, "ping", false), Err(ReplCallError::ApiDisabled));
    assert_eq!(ps_call(true, false, "ping", true), Ok(PsCall::Ping));
    assert_eq!(ps_call(true, false, "pull", false), Err(ReplCallError::NoKey));
    assert_eq!(ps_call(true, true, "pull", true), Err(ReplCallError::UnexpectedParams));
    assert_eq!(ps_call(true, true, "pull", false), Ok(PsCall::Pull));
    assert_eq!(ps_call(true, true, "action", false), Err(ReplCallError::NoParams));
    assert_eq!(ps_call(true, true, "lvar.set", true), Ok(PsCall::Item));
    assert_eq!(ps_call(true, true, "rpvt", true), Ok(PsCall::Rpvt));
    assert_eq!(ps_call(true, true, "action.result", true), Ok(PsCall::ActionResult));
    assert_eq!(ps_call(true, false, "bus::x::y", true), Err(ReplCallError::NoKey));
    assert_eq!(ps_call(true, true, "bus::x::y", false), Ok(PsCall::Bus));
    assert_eq!(ps_call(true, true, "item.list", false), Err(ReplCallError::NotImplemented));
    assert_eq!(ps_item_oid(ParamValue::Text("sensor:a".to_string())), Ok("sensor:a".to_string()));
    assert_eq!(ps_item_oid(ParamValue::Missing), Err(ReplCallError::NoOid));
    assert_eq!(ps_item_oid(ParamValue::Other), Err(ReplCallError::OidNotString));
    assert_eq!(ps_rpvt_url(".local/http://h/x"), Ok("http://h/x".to_string()));
    assert_eq!(ps_rpvt_url("n2/x"), Err(ReplCallError::NonLocal));
    assert_eq!(ps_rpvt_url(".local"), Err(ReplCallError::NoUrl));
    assert_eq!(split_bus_call("eva.core::item.list"), Ok(("eva.core".to_string(), "item.list".to_string())));
    assert_eq!(split_bus_call("eva.core"), Err(ReplCallError::NoBusMethod));
}

#[test]
fn older_states_are_not_sent_after_newer_ones() {
    let mut s = SentStates::new();
    assert!(s.accept_state("sensor:a", (1, 10)));
    assert!(!s.accept_state("sensor:a", (1, 9)));
    assert!(s.accept_state("sensor:a", (1, 10)));
    assert!(s.accept_state("sensor:a", (2, 1)));
    assert!(!s.accept_state("sensor:a", (1, 100)));
    assert!(s.accept_state("sensor:b", (1, 1)));
}

#[test]
fn buffered_frames_go_out_per_topic() {
    let mut b: WsBuffer<u32> = WsBuffer::new();
    b.push(WsTopic::State, 1);
    b.push(WsTopic::Log, 10);
    b.push(WsTopic::State, 2);
    assert_eq!(b.flush(), vec![(WsTopic::State, vec![1, 2]), (WsTopic::Log, vec![10])]);
    assert!(b.flush().is_empty());
    b.push(WsTopic::Log, 11);
    assert_eq!(b.flush(), vec![(WsTopic::Log, vec![11])]);
}

fn inventory_item(oid: &str) -> eva_common::events::ReplicationInventoryItem {
    serde_json::from_str(&format!(
        r#"{{"oid":"{}","ieid":null,"t":null,"meta":null,"enabled":true}}"#,
        oid
    ))
    .unwrap()
}

#[test]
fn untrusted_node_keeps_writable_items_only() {
    let acl: eva_common::acl::Acl =
        serde_json::from_str(r#"{"id":"w","write":{"items":["sensor:plant/#"]},"from":[]}"#).unwrap();
    let items = vec![
        inventory_item("sensor:plant/t1"),
        inventory_item("sensor:office/t1"),
        inventory_item("sensor:plant/t2"),
    ];
    let kept = eva_ics::nodes::writable_items(&acl, items);
    let oids: Vec<String> = kept.iter().map(|i| i.oid.to_string()).collect();
    assert_eq!(oids, vec!["sensor:plant/t1".to_string(), "sensor:plant/t2".to_string()]);
}
