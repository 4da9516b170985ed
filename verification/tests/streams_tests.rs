use eva_ics::streams::{stream_path, stream_start, StreamClients, StreamStart};
use eva_ics::web::HmiTopics;

fn topics() -> HmiTopics {
    HmiTopics {
        local_state: "ST/LOC/".to_string(),
        remote_state: "ST/REM/".to_string(),
        log: "LOG/EV/".to_string(),
        acl: "AAA/ACL/".to_string(),
        key: "AAA/KEY/".to_string(),
        user: "AAA/USER/".to_string(),
    }
}

#[test]
fn attach_subscribes_both_state_topics() {
    let t = topics();
    let mut s = StreamClients::new();
    let r = s.attach("sensor/cam/1", 7, &t);
    assert_eq!(r, vec!["ST/LOC/sensor/cam/1".to_string(), "ST/REM/sensor/cam/1".to_string()]);
    assert_eq!(s.clients("sensor/cam/1"), vec![7]);
    assert_eq!(s.clients("sensor/cam/2"), Vec::<u64>::new());
}

#[test]
fn attach_twice_keeps_client_once() {
    let t = topics();
    let mut s = StreamClients::new();
    s.attach("sensor/cam/1", 7, &t);
    s.attach("sensor/cam/1", 8, &t);
    s.attach("sensor/cam/1", 7, &t);
    s.attach("sensor/cam/2", 7, &t);
    assert_eq!(s.clients("sensor/cam/1"), vec![7, 8]);
    assert_eq!(s.clients("sensor/cam/2"), vec![7]);
}

#[test]
fn sweep_drops_closed_clients_and_ends_empty_streams() {
    let t = topics();
    let mut s = StreamClients::new();
    s.attach("sensor/a", 1, &t);
    s.attach("sensor/a", 2, &t);
    s.attach("sensor/b", 3, &t);
    s.attach("sensor/c", 4, &t);
    let gone = s.sweep(&vec![2, 3, 4], &t);
    assert_eq!(
        gone,
        vec![
            "ST/LOC/sensor/b".to_string(),
            "ST/REM/sensor/b".to_string(),
            "ST/LOC/sensor/c".to_string(),
            "ST/REM/sensor/c".to_string(),
        ]
    );
    assert_eq!(s.clients("sensor/a"), vec![1]);
    assert_eq!(s.clients("sensor/b"), Vec::<u64>::new());
}

#[test]
fn sweep_without_closed_clients_ends_nothing() {
    let t = topics();
    let mut s = StreamClients::new();
    s.attach("sensor/a", 1, &t);
    assert!(s.sweep(&vec![], &t).is_empty());
    assert_eq!(s.clients("sensor/a"), vec![1]);
}

#[test]
fn stream_path_of_state_topics() {
    let t = topics();
    assert_eq!(stream_path("ST/LOC/sensor/a", &t), Some("sensor/a".to_string()));
    assert_eq!(stream_path("ST/REM/sensor/a", &t), Some("sensor/a".to_string()));
    assert_eq!(stream_path("LOG/EV/info", &t), None);
}

#[test]
fn stream_start_answers() {
    assert_eq!(stream_start(true), StreamStart::Start);
    assert_eq!(stream_start(false), StreamStart::Forbidden);
    assert_eq!(StreamStart::Start.reply_text(), "start");
    assert_eq!(StreamStart::Forbidden.reply_text(), "forbidden");
}
