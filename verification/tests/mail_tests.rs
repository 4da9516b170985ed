use eva_ics::mailer::{
    check_default_recipients, check_sender, gather_recipients, profile_email, select_recipients,
    smtp_credentials, smtp_tls_plan, DelayedMails, MailError, TlsMode,
};
use eva_ics::pvt::{forwarded_rpvt_path, rpvt_plan, rpvt_route, rpvt_target, RpvtError, RpvtRoute};

fn texts(v: &[&str]) -> Vec<String> {
    v.iter().map(|s| s.to_string()).collect()
}

#[test]
fn mailer_addresses_are_checked() {
    assert_eq!(check_default_recipients(&texts(&["a@example.com", "B <b@example.com>"])), Ok(()));
    assert_eq!(
        check_default_recipients(&texts(&["a@example.com", "not an address"])),
        Err(MailError::InvalidDefaultRecipient)
    );
    assert_eq!(check_default_recipients(&Vec::new()), Ok(()));
    assert_eq!(check_sender("eva@node1"), Ok(()));
    assert_eq!(check_sender(""), Err(MailError::InvalidSender));
}

#[test]
fn recipients_are_chosen() {
    let defaults = texts(&["d@example.com"]);
    assert_eq!(select_recipients(&Vec::new(), &defaults), Ok(defaults.clone()));
    assert_eq!(
        select_recipients(&texts(&["bad", "x@example.com"]), &defaults),
        Ok(texts(&["x@example.com"]))
    );
    assert_eq!(select_recipients(&texts(&["bad"]), &defaults), Err(MailError::NoRecipients));
    assert_eq!(select_recipients(&Vec::new(), &Vec::new()), Err(MailError::NoRecipients));
    assert_eq!(
        gather_recipients(texts(&["a@x"]), texts(&["b@x"]), true),
        Ok(texts(&["a@x", "b@x"]))
    );
    assert_eq!(gather_recipients(Vec::new(), Vec::new(), true), Err(MailError::NotResolved));
    assert_eq!(gather_recipients(Vec::new(), Vec::new(), false), Ok(Vec::new()));
    assert_eq!(profile_email(Some("u@x".to_string())), Some("u@x".to_string()));
    assert_eq!(profile_email(Some(String::new())), None);
    assert_eq!(profile_email(None), None);
}

#[test]
fn transport_settings() {
    assert_eq!(smtp_tls_plan(true, false), (true, TlsMode::Required));
    assert_eq!(smtp_tls_plan(false, false), (false, TlsMode::NoTls));
    assert_eq!(smtp_tls_plan(false, true), (false, TlsMode::Wrapper));
    assert_eq!(smtp_tls_plan(true, true), (true, TlsMode::Wrapper));
    assert_eq!(
        smtp_credentials(Some("u".to_string()), None),
        Some(("u".to_string(), String::new()))
    );
    assert_eq!(
        smtp_credentials(Some("u".to_string()), Some("p".to_string())),
        Some(("u".to_string(), "p".to_string()))
    );
    assert_eq!(smtp_credentials(None, Some("p".to_string())), None);
}

#[test]
fn delayed_mails_merge_and_go_out_when_due() {
    let mut q = DelayedMails::new();
    assert!(q.is_empty());
    q.schedule(texts(&["a@x"]), Some("s".to_string()), "one".to_string(), 100, 50);
    q.schedule(texts(&["a@x"]), Some("s".to_string()), "two".to_string(), 120, 500);
    q.schedule(texts(&["a@x"]), Some("s".to_string()), String::new(), 130, 500);
    q.schedule(texts(&["a@x"]), None, "other".to_string(), 100, 10);
    assert!(q.holds(&texts(&["a@x"]), &None));
    assert!(!q.holds(&texts(&["b@x"]), &None));
    assert_eq!(q.take_due(110), vec![]);
    assert_eq!(q.take_due(111), vec![(texts(&["a@x"]), None, "other".to_string())]);
    assert_eq!(
        q.take_due(151),
        vec![(texts(&["a@x"]), Some("s".to_string()), "one\ntwo".to_string())]
    );
    assert!(q.is_empty());
}

#[test]
fn body_ending_a_line_is_not_doubled() {
    let mut q = DelayedMails::new();
    q.schedule(Vec::new(), None, "line\n".to_string(), 0, 0);
    q.schedule(Vec::new(), None, "next".to_string(), 0, 0);
    assert_eq!(q.take_due(1), vec![(Vec::new(), None, "line\nnext".to_string())]);
}

#[test]
fn release_sends_everything() {
    let mut q = DelayedMails::new();
    q.schedule(texts(&["a@x"]), None, "1".to_string(), 10, 1000);
    q.schedule(texts(&["b@x"]), None, "2".to_string(), 10, 5000);
    q.release_all(20);
    let sent = q.take_due(21);
    assert_eq!(sent.len(), 2);
    assert_eq!(sent[0].0, texts(&["a@x"]));
    assert_eq!(sent[1].2, "2");
    assert!(q.is_empty());
}

fn admin_acl() -> eva_common::acl::Acl {
    serde_json::from_str(r#"{"id":"admin","admin":true,"from":[]}"#).unwrap()
}

fn rpvt_reader() -> eva_common::acl::Acl {
    serde_json::from_str(r#"{"id":"r","read":{"rpvt":["n2/#"]},"from":[]}"#).unwrap()
}

#[test]
fn remote_private_targets() {
    assert_eq!(rpvt_target("node1%2Ffile.txt"), Ok("node1/file.txt".to_string()));
    assert_eq!(rpvt_target("a%zz"), Ok("a%zz".to_string()));
    assert_eq!(rpvt_target("a%FF"), Err(RpvtError::BadEncoding));
    assert_eq!(rpvt_target(""), Err(RpvtError::EmptyTarget));
    assert!(matches!(rpvt_plan(".local/x/y", true, "n1"), Ok(RpvtRoute::Local(u)) if u == "x/y"));
    assert!(matches!(rpvt_plan("n1/x", true, "n1"), Ok(RpvtRoute::Local(u)) if u == "x"));
    assert!(matches!(rpvt_plan("n2/http://h/p", true, "n1"),
        Ok(RpvtRoute::Remote(n, u)) if n == "n2" && u == "http://h/p"));
    assert!(matches!(rpvt_plan("n2", true, "n1"), Err(RpvtError::NoTarget)));
    assert!(matches!(rpvt_plan("n2/x", false, "n1"), Err(RpvtError::Denied)));
    assert_eq!(forwarded_rpvt_path("x/y"), ".local/x/y");
}

#[test]
fn remote_private_files_need_the_acl() {
    let admin = admin_acl();
    let reader = rpvt_reader();
    assert!(matches!(rpvt_route("n2/x", None, "n1"), Err(RpvtError::Denied)));
    assert!(matches!(rpvt_route("n2%2Fx", Some(&admin), "n1"),
        Ok(RpvtRoute::Remote(n, u)) if n == "n2" && u == "x"));
    assert!(matches!(rpvt_route("n2/x", Some(&reader), "n1"), Ok(RpvtRoute::Remote(_, _))));
    assert!(matches!(rpvt_route("n3/x", Some(&reader), "n1"), Err(RpvtError::Denied)));
    assert!(matches!(rpvt_route("", Some(&admin), "n1"), Err(RpvtError::EmptyTarget)));
}
