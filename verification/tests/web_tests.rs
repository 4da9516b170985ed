use eva_ics::api::{api_method, is_deprecated, pass_through, ApiMethod};
use eva_ics::repl_calls::ReplCallError;
use eva_ics::serve::{
    get_route, is_upload, is_ws_path, GetRoute, default_ui_key, dir_step, document_kind, index_choice, path_refused, DirStep, DocError,
    DocKind, TplDirKind,
};
use eva_ics::apilog::{quoted_sql_str, ApiLogFilter, SqlError};
use eva_ics::data::Datum;
use eva_ics::i18n::{convert_str, convert_value};
use eva_ics::token::{
    check_token, create_token, get_expiration, list_neighbors_allowed, sessions_enabled,
    AuthError, SessionConfig, TokenId, TokenIdError,
};
use eva_ics::web::{
    hmi_event, key_socket_goes, subscription_masks, ws_command, HmiEvent, HmiTopics, WsCommandKind,
    get_log_topics, parse_auth, parse_convert_to, ws_api_key, ws_send_initial, ws_state_masks,
    ConvertError, Format,
};

fn params(p: &[(&str, &str)]) -> Vec<(String, String)> {
    p.iter().map(|(k, v)| (k.to_string(), v.to_string())).collect()
}

#[test]
fn auth_key_from_query_or_cookie() {
    let q = params(&[("k", "key1")]);
    assert_eq!(parse_auth(Some(&q), Some("auth=tok")), Some("key1".to_string()));
    assert_eq!(parse_auth(None, Some("a=1; auth = tok2 ;b=2")), Some("tok2".to_string()));
    assert_eq!(parse_auth(Some(&params(&[])), Some("x=1;y")), None);
    assert_eq!(parse_auth(None, Some("")), None);
    assert_eq!(parse_auth(None, None), None);
}

#[test]
fn conversion_requests() {
    assert!(matches!(parse_convert_to("/ui/a.json", None), Ok(None)));
    assert!(matches!(parse_convert_to("/ui/a.json", Some(&params(&[("x", "1")]))), Ok(None)));
    let c = parse_convert_to("/ui/a", Some(&params(&[("as", "yml"), ("lang", "de")]))).unwrap().unwrap();
    assert!(matches!(c.format, Format::Yaml));
    assert_eq!(c.lang.as_deref(), Some("de"));
    assert_eq!(c.uri, "/ui/a");
    let c = parse_convert_to("/ui/a", Some(&params(&[("as", "js"), ("func", "f")]))).unwrap().unwrap();
    assert!(matches!(c.format, Format::JsFunc(ref f) if f == "f"));
    let c = parse_convert_to("/ui/a", Some(&params(&[("as", "js"), ("var", "v"), ("func", "f")]))).unwrap().unwrap();
    assert!(matches!(c.format, Format::JsVar(ref v) if v == "v"));
    assert!(matches!(
        parse_convert_to("/ui/a", Some(&params(&[("as", "js")]))),
        Err(ConvertError::InvalidParameter)
    ));
    assert!(matches!(
        parse_convert_to("/ui/a", Some(&params(&[("as", "xml")]))),
        Err(ConvertError::InvalidParameter)
    ));
}

#[test]
fn log_topics_by_level() {
    assert_eq!(get_log_topics(0), vec!["info", "warn", "error"]);
    assert_eq!(get_log_topics(20), vec!["info", "warn", "error"]);
    assert_eq!(get_log_topics(30), vec!["warn", "error"]);
    assert_eq!(get_log_topics(40), vec!["error"]);
    assert!(get_log_topics(100).is_empty());
}

#[test]
fn websocket_request_parameters() {
    let q = params(&[("state", "sensor:#,unit:tests/u1,sensor:#"), ("initial", "true")]);
    assert_eq!(ws_api_key(Some(&q), Some("hk")), Some("hk".to_string()));
    assert_eq!(ws_api_key(Some(&params(&[("k", "qk")])), Some("hk")), Some("qk".to_string()));
    assert!(ws_send_initial(Some(&q)));
    assert!(!ws_send_initial(Some(&params(&[("initial", "yes")]))));
    let m = ws_state_masks(Some(&q)).unwrap().unwrap();
    assert_eq!(m, vec!["sensor:#".to_string(), "unit:tests/u1".to_string()]);
    assert_eq!(ws_state_masks(None), Ok(None));
    let aliases = params(&[("state", "S:#,sensor,#")]);
    assert_eq!(
        ws_state_masks(Some(&aliases)).unwrap().unwrap(),
        vec!["sensor:#".to_string(), "#".to_string()]
    );
    assert_eq!(
        ws_state_masks(Some(&params(&[("state", "sensor:#,bad")]))),
        Err("bad".to_string())
    );
}

#[test]
fn api_log_condition() {
    let f = ApiLogFilter {
        t_start: Some("100".to_string()),
        t_end: None,
        user: Some("admin".to_string()),
        acl: None,
        method: Some("test".to_string()),
        oid: None,
        note: None,
        source: Some("127.0.0.1".to_string()),
        code: Some(-32602),
        success: Some(false),
    };
    assert_eq!(
        f.condition().unwrap(),
        "WHERE 1 AND t>=100 AND login='admin' AND method='test' AND source='127.0.0.1' AND code=-32602 AND code!=0"
    );
    let bad = ApiLogFilter { user: Some("x' OR 1=1".to_string()), ..f };
    assert_eq!(bad.condition(), Err(SqlError::InvalidCharacter));
    assert_eq!(quoted_sql_str("abc").unwrap(), "'abc'");
    assert_eq!(quoted_sql_str("a'b"), Err(SqlError::InvalidCharacter));
}

fn mo_catalog(pairs: &[(&str, &str)]) -> gettext::Catalog {
    let n = pairs.len() as u32;
    let header = 28u32;
    let orig_table = header;
    let trans_table = orig_table + 8 * n;
    let mut strings_at = trans_table + 8 * n;
    let mut orig_entries = Vec::new();
    let mut trans_entries = Vec::new();
    let mut blob = Vec::new();
    for (k, _) in pairs {
        orig_entries.push((k.len() as u32, strings_at));
        blob.extend_from_slice(k.as_bytes());
        blob.push(0);
        strings_at += k.len() as u32 + 1;
    }
    for (_, v) in pairs {
        trans_entries.push((v.len() as u32, strings_at));
        blob.extend_from_slice(v.as_bytes());
        blob.push(0);
        strings_at += v.len() as u32 + 1;
    }
    let mut mo = Vec::new();
    for w in [0x950412deu32, 0, n, orig_table, trans_table, 0, 0] {
        mo.extend_from_slice(&w.to_le_bytes());
    }
    for (l, o) in orig_entries.iter().chain(trans_entries.iter()) {
        mo.extend_from_slice(&l.to_le_bytes());
        mo.extend_from_slice(&o.to_le_bytes());
    }
    mo.extend_from_slice(&blob);
    gettext::Catalog::parse(std::io::Cursor::new(mo)).unwrap()
}

#[test]
fn texts_are_translated_line_by_line() {
    let cat = mo_catalog(&[("Hello", "Hallo"), ("World", "Welt")]);
    assert_eq!(convert_str("Hello", &cat), "Hallo");
    assert_eq!(convert_str("  Hello\r\nWorld\n\nother", &cat), "  Hallo\nWelt\n\nother");
    assert_eq!(convert_str("Hello  ", &cat), "Hallollo  ");
}

#[test]
fn values_are_translated_recursively() {
    let cat = mo_catalog(&[("Hello", "Hallo")]);
    let v = Datum::Sequence(vec![
        Datum::Text("Hello".to_string()),
        Datum::U8(1),
        Datum::Mapping(vec![(Datum::Text("Hello".to_string()), Datum::Text("Hello".to_string()))]),
    ]);
    let Datum::Sequence(out) = convert_value(v, &cat) else { panic!() };
    assert!(matches!(&out[0], Datum::Text(s) if s == "Hallo"));
    assert!(matches!(out[1], Datum::U8(1)));
    let Datum::Mapping(m) = &out[2] else { panic!() };
    assert!(matches!(&m[0].0, Datum::Text(s) if s == "Hello"));
    assert!(matches!(&m[0].1, Datum::Text(s) if s == "Hallo"));
}

#[test]
fn token_text_forms() {
    let id = TokenId::new((0u8..16).collect(), "abcdefghijklmnop".to_string());
    let s = id.to_token_string();
    assert_eq!(s, "token:000102030405060708090a0b0c0d0e0fabcdefghijklmnop");
    let back = TokenId::try_from_token_str(&s).unwrap();
    assert!(back.same_as(&id));
    assert_eq!(id.to_short_string(), "000102030405060708090a0b0c0d0e0fabcdefghijklmnop");
    assert_eq!(TokenId::try_from_str("short").err(), Some(TokenIdError::InvalidFormat));
    assert_eq!(
        TokenId::try_from_str("zz0102030405060708090a0b0c0d0e0fabcdefghijklmnop").err(),
        Some(TokenIdError::InvalidHex)
    );
    assert_eq!(TokenId::try_from_token_str("000102").err(), Some(TokenIdError::InvalidFormat));
}

#[test]
fn sessions_and_tokens() {
    let off = SessionConfig::new(None, true, true, false);
    assert!(!sessions_enabled(&off));
    assert_eq!(get_expiration(&off), Err(AuthError::SessionsDisabled));
    assert_eq!(list_neighbors_allowed(&off), Err(AuthError::NotAllowed));
    let id = TokenId::new(vec![7; 16], "s".to_string());
    assert!(matches!(
        create_token(&off, id.duplicate(), "u".into(), "acl".into(), "svc".into(), None, 1000),
        Err(AuthError::SessionsDisabled)
    ));
    let on = SessionConfig::new(Some(60), true, true, true);
    let ip = Some(vec![10, 0, 0, 1]);
    let tok = create_token(&on, id.duplicate(), "u".into(), "acl".into(), "svc".into(), ip.clone(), 1000).unwrap();
    assert_eq!(tok.time(), 1000);
    assert_eq!(tok.mode_as_str(), "normal");
    assert!(matches!(check_token(None, &ip, &on, 1000), Err(AuthError::InvalidToken)));
    let (checked, touched) = check_token(Some(tok), &ip, &on, 1050).unwrap();
    assert!(touched);
    assert_eq!(checked.time(), 1050);
    assert_eq!(checked.expires_in(&on, 1060), Ok(50));
    assert!(matches!(check_token(Some(checked), &Some(vec![10, 0, 0, 2]), &on, 1060), Err(AuthError::TokenIpDenied)));
    let tok = create_token(&on, id, "u".into(), "acl".into(), "svc".into(), ip.clone(), 1000).unwrap();
    assert_eq!(tok.is_expired(&on, 1061), Ok(true));
    assert!(matches!(check_token(Some(tok), &ip, &on, 1061), Err(AuthError::InvalidToken)));
}

#[test]
fn served_files_are_planned() {
    assert!(path_refused("a/../b"));
    assert!(path_refused("a/.hidden"));
    assert!(!path_refused("a/b.html"));
    assert!(matches!(dir_step("/ui/x", "/opt/ui/x", true, true, TplDirKind::Ui),
        DirStep::Redirect(u) if u == "/ui/x/"));
    assert!(matches!(dir_step("/ui/x/", "/opt/ui/x/", true, true, TplDirKind::Ui),
        DirStep::CheckIndex(p) if p == "/opt/ui/x/index.j2"));
    assert!(matches!(dir_step("/ui/x/", "/opt/ui/x/", true, false, TplDirKind::Ui), DirStep::File(false)));
    assert!(matches!(dir_step("/ui/p.j2", "/opt/ui/p.j2", false, true, TplDirKind::Pvt), DirStep::File(true)));
    assert!(matches!(dir_step("/ui/p.j2", "/opt/ui/p.j2", false, true, TplDirKind::No), DirStep::File(false)));
    assert_eq!(index_choice("/opt/ui/", true, TplDirKind::Ui), ("/opt/ui/index.j2".to_string(), true));
    assert_eq!(index_choice("/opt/ui/", true, TplDirKind::No), ("/opt/ui/index.j2".to_string(), false));
    assert_eq!(index_choice("/opt/ui/", false, TplDirKind::Ui), ("/opt/ui/index.html".to_string(), false));
    assert_eq!(default_ui_key(true, ""), Some("index.html".to_string()));
    assert_eq!(default_ui_key(true, "favicon.ico"), Some("favicon.ico".to_string()));
    assert_eq!(default_ui_key(false, "favicon.ico"), None);
    assert_eq!(document_kind(Some("application/json")), Ok(DocKind::Json));
    assert_eq!(document_kind(Some("application/x-yaml")), Ok(DocKind::Yaml));
    assert_eq!(document_kind(Some("text/html")), Err(DocError::Unsupported));
    assert_eq!(document_kind(None), Err(DocError::Unknown));
}

fn hmi_topics() -> HmiTopics {
    HmiTopics {
        local_state: "ST/LCL/".to_string(),
        remote_state: "ST/REM/".to_string(),
        log: "LOG/EV/".to_string(),
        acl: "AAA/ACL/".to_string(),
        key: "AAA/KEY/".to_string(),
        user: "AAA/USER/".to_string(),
    }
}

#[test]
fn bus_events_are_classified() {
    let t = hmi_topics();
    assert!(matches!(hmi_event("ST/LCL/sensor/a", &t), HmiEvent::LocalState(p) if p == "sensor/a"));
    assert!(matches!(hmi_event("ST/REM/sensor/b", &t), HmiEvent::RemoteState(p) if p == "sensor/b"));
    assert!(matches!(hmi_event("LOG/EV/info", &t), HmiEvent::Log(p) if p == "info"));
    assert!(matches!(hmi_event("AAA/ACL/ops", &t), HmiEvent::AclChanged(p) if p == "ops"));
    assert!(matches!(hmi_event("AAA/KEY/k1", &t), HmiEvent::KeyChanged(p) if p == "k1"));
    assert!(matches!(hmi_event("AAA/USER/u", &t), HmiEvent::UserChanged(p) if p == "u"));
    assert!(matches!(hmi_event("SVC/x", &t), HmiEvent::Other));
    assert!(key_socket_goes(".k1", "k1"));
    assert!(!key_socket_goes("k1", "k1"));
}

#[test]
fn get_requests_are_routed() {
    assert!(matches!(get_route("/", None, true, false), GetRoute::Redirect(l) if l == "/ui/"));
    assert!(matches!(get_route("/ui", None, false, false), GetRoute::Redirect(l) if l == "/ui/"));
    assert!(matches!(get_route("/va/", None, true, true), GetRoute::Redirect(l) if l == "/ui/vendored-apps/"));
    assert!(matches!(get_route("/va/app/x", None, true, true), GetRoute::Redirect(l) if l == "/ui/vendored-apps/app/x"));
    assert!(matches!(get_route("/va/app/x", None, true, false), GetRoute::NotFound));
    assert!(matches!(get_route("/favicon.ico", None, true, false), GetRoute::UiPlain(p, true) if p == "favicon.ico"));
    assert!(matches!(get_route("/favicon.ico", None, false, false), GetRoute::NotFound));
    assert!(matches!(get_route("/.evahi/x.js", None, true, false), GetRoute::UiPlain(p, false) if p == ".evahi/x.js"));
    assert!(matches!(get_route("/ui/vendored-apps/a/i.html", None, true, true), GetRoute::Vendored(p) if p == "a/i.html"));
    assert!(matches!(get_route("/ui/vendored-apps/a/i.html", None, true, false), GetRoute::Ui(p) if p == "vendored-apps/a/i.html"));
    assert!(matches!(get_route("/ui/index.html", None, true, false), GetRoute::Ui(p) if p == "index.html"));
    assert!(matches!(get_route("/ui/index.html", None, false, false), GetRoute::NotFound));
    assert!(matches!(get_route("/pvt", Some("a.txt"), true, false), GetRoute::Pvt(p) if p == "a.txt"));
    assert!(matches!(get_route("/pvt", None, true, false), GetRoute::BadRequest));
    assert!(matches!(get_route("/pvt/d/a.txt", None, true, false), GetRoute::Pvt(p) if p == "d/a.txt"));
    assert!(matches!(get_route("/rpvt", Some("n/x"), true, false), GetRoute::Rpvt(p) if p == "n/x"));
    assert!(matches!(get_route("/rpvt/n/x", None, true, false), GetRoute::Rpvt(p) if p == "n/x"));
    assert!(matches!(get_route("/:pvt/k", None, true, false), GetRoute::PvtKey(p) if p == "k"));
    assert!(matches!(get_route("/:pub/k", None, true, false), GetRoute::PubKey(p) if p == "k"));
    assert!(matches!(get_route("/other", None, true, true), GetRoute::NotFound));
    assert!(is_ws_path("/ws", None));
    assert!(is_ws_path("/stream", Some("/stream")));
    assert!(!is_ws_path("/stream", None));
    assert!(is_upload("/upload", true));
    assert!(!is_upload("/upload", false));
}

#[test]
fn api_methods_and_aliases() {
    assert_eq!(api_method("item.state"), ApiMethod::ItemState);
    assert_eq!(api_method("state"), ApiMethod::ItemState);
    assert_eq!(api_method("increment"), ApiMethod::LvarIncr);
    assert_eq!(api_method("pvt.list"), ApiMethod::PvtList);
    assert_eq!(api_method("login"), ApiMethod::Login);
    assert_eq!(api_method("bus::eva.core::test"), ApiMethod::Bus);
    assert_eq!(api_method("x::svc::m"), ApiMethod::X);
    assert_eq!(api_method("nope"), ApiMethod::Unknown);
    assert!(is_deprecated("kill"));
    assert!(!is_deprecated("action.kill"));
    assert_eq!(pass_through("item.state"), None);
    assert_eq!(
        pass_through("bus::eva.core::item.list"),
        Some(Ok(("eva.core".to_string(), "item.list".to_string())))
    );
    assert_eq!(
        pass_through("x::eva.svc.x::set::more"),
        Some(Ok(("eva.svc.x".to_string(), "set".to_string())))
    );
    assert_eq!(pass_through("x::eva.svc.x"), Some(Err(ReplCallError::NoBusMethod)));
    assert_eq!(pass_through("bus::eva.core"), Some(Err(ReplCallError::NoBusMethod)));
}

#[test]
fn web_socket_commands() {
    assert_eq!(ws_command("subscribe.state"), WsCommandKind::SubscribeState);
    assert_eq!(ws_command("subscribe.state_initial"), WsCommandKind::SubscribeStateInitial);
    assert_eq!(ws_command("bye"), WsCommandKind::Bye);
    assert_eq!(ws_command("ping"), WsCommandKind::Ping);
    assert_eq!(ws_command("reboot"), WsCommandKind::Invalid);
    let masks = subscription_masks(&vec![
        "sensor:tests/#".to_string(),
        "not a mask::".to_string(),
        "sensor:tests/#".to_string(),
        "#".to_string(),
    ]);
    assert_eq!(masks, vec!["sensor:tests/#".to_string(), "#".to_string()]);
}
