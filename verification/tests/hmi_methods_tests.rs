use eva_ics::hmi_methods::{
    api_filter_verdict, api_log_user, auth_step, db_list, ehmi_app_url, ehmi_config_key, ehmi_uid,
    key_login, pvt_listing, AuthReply, AuthStep, EhmiError, LogAccessError,
};
use eva_ics::api::{call_target, with_call_key};
use eva_ics::data::Datum;
use eva_ics::web::key_socket_goes;

fn text(d: &Datum) -> &str {
    match d {
        Datum::Text(t) => t.as_str(),
        _ => panic!("not a text"),
    }
}

fn b64url(data: &[u8]) -> String {
    base64::Engine::encode(&base64::engine::general_purpose::URL_SAFE_NO_PAD, data)
}

fn sha(data: &[u8]) -> Vec<u8> {
    let mut h = openssl::sha::Sha256::new();
    h.update(data);
    h.finish().to_vec()
}

#[test]
fn api_log_privileged_keeps_filter() {
    assert_eq!(api_log_user(Some("bob".to_string()), true, Some("alice")), Ok(Some("bob".to_string())));
    assert_eq!(api_log_user(None, true, None), Ok(None));
}

#[test]
fn api_log_unprivileged_gets_own_user() {
    assert_eq!(api_log_user(None, false, Some("alice")), Ok(Some("alice".to_string())));
    assert_eq!(
        api_log_user(Some("alice".to_string()), false, Some("alice")),
        Ok(Some("alice".to_string()))
    );
}

#[test]
fn api_log_other_user_refused() {
    assert_eq!(
        api_log_user(Some("bob".to_string()), false, Some("alice")),
        Err(LogAccessError::OtherUser)
    );
}

#[test]
fn api_log_without_token_refused() {
    assert_eq!(api_log_user(None, false, None), Err(LogAccessError::NoToken));
}

#[test]
fn db_list_keeps_enabled_db_services() {
    let svcs = vec![
        ("eva.db.default".to_string(), true),
        ("eva.db.old".to_string(), false),
        ("eva.hmi.default".to_string(), true),
        ("eva.db.archive".to_string(), true),
    ];
    assert_eq!(
        db_list(&svcs, "default"),
        vec![("default".to_string(), true), ("archive".to_string(), false)]
    );
}

#[test]
fn pvt_listing_relative_to_base() {
    let entries = vec![
        ("/opt/eva/pvt/docs/a.txt".to_string(), true),
        ("/opt/eva/pvt/docs/secret.txt".to_string(), false),
        ("/opt/eva/pvt/docs/sub/b.txt".to_string(), true),
        ("/opt/eva/pvt/docs".to_string(), true),
    ];
    assert_eq!(
        pvt_listing(&entries, Some("/opt/eva/pvt"), "/opt/eva/pvt/docs"),
        vec!["a.txt".to_string(), "sub/b.txt".to_string()]
    );
}

#[test]
fn ehmi_url_default_app_and_trimmed_address() {
    assert_eq!(
        ehmi_app_url(Some("https://hmi.local//"), None, "KEY", "UID"),
        Ok("https://hmi.local/ui/ehmi/ec/?ck=KEY&uid=UID".to_string())
    );
    assert_eq!(
        ehmi_app_url(Some("http://h"), Some("panel"), "k", "u"),
        Ok("http://h/ui/ehmi/panel/?ck=k&uid=u".to_string())
    );
}

#[test]
fn ehmi_url_needs_hmi_address() {
    assert_eq!(ehmi_app_url(None, None, "k", "u"), Err(EhmiError::NoHmiUrl));
}

#[test]
fn ehmi_uid_is_hashed_short_id() {
    let uid = ehmi_uid("abc123");
    assert_eq!(uid, b64url(&sha(b"abc123")));
    assert_ne!(uid, "abc123");
    assert_eq!(uid.len(), 43);
}

#[test]
fn ehmi_config_key_hashes_all_parts() {
    let packed = [0x81u8, 0xa1, 0x78, 0x01];
    let mut all = b"127.0.0.1".to_vec();
    all.extend_from_slice(b"secret");
    all.extend_from_slice(&packed);
    assert_eq!(ehmi_config_key("127.0.0.1", "secret", &packed), b64url(&sha(&all)));
}

#[test]
fn api_filter_passes_on_zero_exit() {
    assert_eq!(api_filter_verdict(Some(0), Some("x".to_string()), None), None);
}

#[test]
fn api_filter_denial_messages() {
    assert_eq!(
        api_filter_verdict(Some(1), Some("no".to_string()), Some("out".to_string())),
        Some("no".to_string())
    );
    assert_eq!(api_filter_verdict(Some(1), None, Some("out".to_string())), Some("out".to_string()));
    assert_eq!(api_filter_verdict(Some(2), None, None), Some("Denied by API filter".to_string()));
    assert_eq!(api_filter_verdict(None, None, None), Some("API filter timeout".to_string()));
}

#[test]
fn auth_steps() {
    assert_eq!(auth_step(&AuthReply::Accepted), AuthStep::Accept);
    assert_eq!(auth_step(&AuthReply::Denied(Some("|otp required".to_string()))), AuthStep::Stop);
    assert_eq!(auth_step(&AuthReply::Denied(Some("bad password".to_string()))), AuthStep::TryNext);
    assert_eq!(auth_step(&AuthReply::Denied(None)), AuthStep::TryNext);
    assert_eq!(auth_step(&AuthReply::MoreDataRequired), AuthStep::Stop);
    assert_eq!(auth_step(&AuthReply::Failed), AuthStep::TryNext);
}

#[test]
fn key_login_is_dotted_and_matches_its_key_only() {
    let l = key_login("operator");
    assert_eq!(l, ".operator");
    assert!(key_socket_goes(&l, "operator"));
    assert!(!key_socket_goes(&l, "admin"));
}

#[test]
fn call_shortcuts() {
    assert_eq!(call_target("s"), Some("item.state".to_string()));
    assert_eq!(call_target("h"), Some("item.state_history".to_string()));
    assert_eq!(call_target("ehmi"), Some("ehmi.create_config".to_string()));
    assert_eq!(call_target("test"), Some("test".to_string()));
    assert_eq!(call_target("call"), None);
}

#[test]
fn call_key_added_once() {
    let p = Datum::Mapping(vec![(Datum::Text("i".to_string()), Datum::Text("sensor:a".to_string()))]);
    match with_call_key(p, Some("secret".to_string())) {
        Datum::Mapping(m) => {
            assert_eq!(m.len(), 2);
            assert_eq!((text(&m[0].0), text(&m[0].1)), ("i", "sensor:a"));
            assert_eq!((text(&m[1].0), text(&m[1].1)), ("k", "secret"));
        }
        _ => panic!("not a map"),
    }
    let p2 = Datum::Mapping(vec![(Datum::Text("k".to_string()), Datum::Text("own".to_string()))]);
    match with_call_key(p2, Some("secret".to_string())) {
        Datum::Mapping(m) => {
            assert_eq!(m.len(), 1);
            assert_eq!(text(&m[0].1), "own");
        }
        _ => panic!("not a map"),
    }
    assert!(matches!(with_call_key(Datum::Unit, Some("x".to_string())), Datum::Unit));
}
