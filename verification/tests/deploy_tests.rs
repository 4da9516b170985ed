use eva_ics::deploy::{file_put_params, UploadContent};
use eva_ics::deploy::{node_order, node_steps, services_to_test, svc_started, DeployStep, NodeSection};
use eva_ics::launcher::{cargo_add_args, initial_frame, launch_command, launched_service_id, restarts_on, SourceChange};
use eva_ics::data::Datum;
use eva_ics::deploy::{
    bus_call_target, check_deploy_version, complete_upload_target, env_config_var,
    parse_config_var, prepare_upload, DeployError, Upload,
};
use eva_ics::extract::{Extract, ExtractBoolOrStr, ExtractError};
use eva_ics::intl::{collect_ids, missing_translations, new_ids, po_entries, po_existing_ids, po_stats, PoError, PO_HEADER};
use eva_ics::paths::path_push;

fn upload() -> Upload {
    Upload {
        src: None,
        text: None,
        url: None,
        target: "/opt/eva4/ui/".to_string(),
        svc: String::new(),
        permissions: None,
        extract: ExtractBoolOrStr::Bool(false),
    }
}

#[test]
fn config_variables() {
    let (n, v) = parse_config_var("port=8080").unwrap();
    assert_eq!(n, "port");
    assert!(matches!(v, Datum::U64(8080)));
    let (_, v) = parse_config_var("name=a=b").unwrap();
    assert!(matches!(v, Datum::Text(ref s) if s == "a=b"));
    assert_eq!(
        parse_config_var("novalue").err(),
        Some(DeployError::InvalidVariable("novalue".to_string()))
    );
    let (n, v) = env_config_var("ECD_HOST", "h1").unwrap();
    assert_eq!(n, "HOST");
    assert!(matches!(v, Datum::Text(ref s) if s == "h1"));
    assert!(env_config_var("PATH", "/bin").is_none());
}

#[test]
fn deployment_version_and_bus_targets() {
    assert_eq!(check_deploy_version(4), Ok(()));
    assert_eq!(check_deploy_version(3), Err(DeployError::UnsupportedVersion(3)));
    assert_eq!(bus_call_target("eva.svc.x::test"), ("eva.svc.x".to_string(), "test".to_string()));
    assert_eq!(bus_call_target("save"), ("eva.core".to_string(), "save".to_string()));
}

#[test]
fn uploads_are_prepared_and_completed() {
    let u = Upload { src: Some("files/a.tar.gz".to_string()), extract: ExtractBoolOrStr::Bool(true), ..upload() };
    let p = prepare_upload(u, "eva.filemgr.main", "/deploy").unwrap();
    assert_eq!(p.src.as_deref(), Some("/deploy/files/a.tar.gz"));
    assert_eq!(p.svc, "eva.filemgr.main");
    assert_eq!(p.extract, ExtractBoolOrStr::Extr(Extract::Tgz));
    let p = complete_upload_target(p).unwrap();
    assert_eq!(p.target, "/opt/eva4/ui/");
    let u = Upload { src: Some("/abs/x.txt".to_string()), svc: "eva.filemgr.2".to_string(), ..upload() };
    let p = prepare_upload(u, "eva.filemgr.main", "/deploy").unwrap();
    assert_eq!(p.src.as_deref(), Some("/abs/x.txt"));
    assert_eq!(p.svc, "eva.filemgr.2");
    assert_eq!(complete_upload_target(p).unwrap().target, "/opt/eva4/ui/x.txt");
    let u = Upload { url: Some("https://host/pkg/y.zip".to_string()), ..upload() };
    let p = complete_upload_target(prepare_upload(u, "s", "").unwrap()).unwrap();
    assert_eq!(p.target, "/opt/eva4/ui/y.zip");
    assert_eq!(prepare_upload(upload(), "s", "").err(), Some(DeployError::NoContent));
    let u = Upload { text: Some("hello".to_string()), ..upload() };
    assert_eq!(complete_upload_target(prepare_upload(u, "s", "").unwrap()).err(), Some(DeployError::NoTargetName));
    let u = Upload { text: Some("t".to_string()), extract: ExtractBoolOrStr::Bool(true), ..upload() };
    assert_eq!(prepare_upload(u, "s", "").err(), Some(DeployError::Extract(ExtractError::NoSource)));
    let u = Upload { url: Some("https://host/..".to_string()), ..upload() };
    assert_eq!(complete_upload_target(u).err(), Some(DeployError::MissingUrlFileName));
}

#[test]
fn path_pushing() {
    assert_eq!(path_push("/a", "b"), "/a/b");
    assert_eq!(path_push("/a/", "b"), "/a/b");
    assert_eq!(path_push("", "b"), "b");
}

#[test]
fn message_ids_of_ui_documents() {
    let doc = Datum::Mapping(vec![
        (Datum::Text("a".to_string()), Datum::Text(" Hello \r\n\nWorld\nHello".to_string())),
        (Datum::Text("b".to_string()), Datum::Sequence(vec![Datum::Text("Bye".to_string()), Datum::U8(3)])),
    ]);
    let mut ids = vec!["World".to_string()];
    collect_ids(&doc, &mut ids);
    assert_eq!(ids, vec!["World".to_string(), "Hello".to_string(), "Bye".to_string()]);
}

#[test]
fn po_files() {
    let po = format!("{}\nmsgid \"Hello\"\nmsgstr \"Hallo\"\n\nmsgid \"Bye\"\nmsgstr \"\"\n", PO_HEADER);
    assert_eq!(po_existing_ids(&po).unwrap(), vec!["Hello".to_string(), "Bye".to_string()]);
    assert_eq!(po_stats(&po).unwrap(), (3, 1));
    assert_eq!(missing_translations(3, 1), 1);
    assert_eq!(
        po_existing_ids("msgid Hello\n").err(),
        Some(PoError::InvalidMsgid("Hello".to_string()))
    );
    assert_eq!(po_stats("msgstr \"\n").err(), Some(PoError::InvalidMsgstr("\"".to_string())));
    let existing = vec!["Hello".to_string()];
    let fresh = new_ids(&vec!["Hello".to_string(), "New".to_string()], &existing);
    assert_eq!(fresh, vec!["New".to_string()]);
    assert_eq!(po_entries(&fresh), "\nmsgid \"New\"\nmsgstr \"\"\n");
}

#[test]
fn launcher_commands() {
    let args = cargo_add_args(
        "eva-common",
        "0.3.75",
        &vec!["events".to_string(), "acl".to_string()],
        None,
        false,
    );
    assert_eq!(
        args,
        vec!["-q", "add", "eva-common@0.3.75", "--features", "events", "--features", "acl"]
    );
    let args = cargo_add_args("x", "1", &Vec::new(), Some("../x".to_string()), true);
    assert_eq!(args, vec!["-q", "add", "x", "--path", "../x", "--no-default-features"]);
    assert_eq!(launched_service_id("eva.svc.t", "host", 42, None), "eva.svc.t.host.42");
    assert_eq!(launched_service_id("eva.svc.t", "host", 42, Some("my".to_string())), "my");
    assert_eq!(initial_frame(1, &[7, 8, 9]), Ok(vec![1, 3, 0, 0, 0, 7, 8, 9]));
    assert_eq!(initial_frame(1, &[]), Ok(vec![1, 0, 0, 0, 0]));
    assert_eq!(launch_command(None, true), ("cargo".to_string(), vec!["run".to_string(), "--release".to_string()]));
    assert_eq!(launch_command(Some("./svc".to_string()), true), ("./svc".to_string(), Vec::new()));
    assert!(restarts_on(true, SourceChange::Modify));
    assert!(!restarts_on(true, SourceChange::Other));
    assert!(!restarts_on(false, SourceChange::Create));
}

#[test]
fn deployment_calls_are_ordered() {
    let n = NodeSection {
        uploads: 2,
        items: true,
        svcs: true,
        acls: false,
        keys: true,
        users: false,
        sources: true,
        extra_before: true,
        extra_after: false,
    };
    assert_eq!(
        node_steps(&n, true),
        vec![
            DeployStep::ExtraBefore,
            DeployStep::File(0),
            DeployStep::File(1),
            DeployStep::Items,
            DeployStep::Svcs,
            DeployStep::WaitSvcs,
            DeployStep::Keys,
            DeployStep::Sources
        ]
    );
    assert_eq!(
        node_steps(&n, false),
        vec![
            DeployStep::ExtraBefore,
            DeployStep::Items,
            DeployStep::Sources,
            DeployStep::Keys,
            DeployStep::Svcs,
            DeployStep::File(0),
            DeployStep::File(1)
        ]
    );
    assert_eq!(node_order(3, true), vec![0, 1, 2]);
    assert_eq!(node_order(3, false), vec![2, 1, 0]);
    let tests = services_to_test(
        &vec!["eva.filemgr.main".to_string(), "eva.aaa.default".to_string()],
        Some("eva.aaa.default".to_string()),
        None,
        Some("eva.aaa.localauth".to_string()),
        None,
        &vec!["eva.aaa.localauth".to_string()],
    );
    assert_eq!(
        tests,
        vec![
            ("eva.aaa.default".to_string(), "acl.deploy".to_string()),
            ("eva.filemgr.main".to_string(), "test".to_string())
        ]
    );
    assert!(svc_started("online", true));
    assert!(!svc_started("online", false));
    assert!(!svc_started("starting", true));
}

fn sha(data: &[u8]) -> Vec<u8> {
    openssl::sha::sha256(data).to_vec()
}

#[test]
fn offline_node_refused() {
    assert_eq!(eva_ics::deploy::check_node_online("n1", true), Ok(()));
    assert_eq!(
        eva_ics::deploy::check_node_online("n1", false),
        Err(DeployError::NodeOffline("n1".to_string()))
    );
}

#[test]
fn file_put_parameters() {

    let p = file_put_params(UploadContent::Local(b"abc".to_vec(), 0o644), None);
    assert_eq!(p.content, b"abc".to_vec());
    assert_eq!(p.permissions, Some(0o644));
    assert_eq!(p.sha256, Some(sha(b"abc")));
    assert!(!p.download);
    let p = file_put_params(UploadContent::Local(b"abc".to_vec(), 0o644), Some(0o755));
    assert_eq!(p.permissions, Some(0o755));
    let p = file_put_params(UploadContent::Text("hi".to_string()), None);
    assert_eq!(p.content, b"hi".to_vec());
    assert_eq!(p.permissions, None);
    assert_eq!(p.sha256, Some(sha(b"hi")));
    let p = file_put_params(UploadContent::Url("https://x/y.tgz".to_string()), Some(0o600));
    assert_eq!(p.content, b"https://x/y.tgz".to_vec());
    assert_eq!(p.sha256, None);
    assert!(p.download);
    assert_eq!(p.permissions, Some(0o600));
    let p = file_put_params(UploadContent::Fetched(vec![1, 2]), None);
    assert_eq!(p.sha256, Some(sha(&[1, 2])));
    assert!(!p.download);
}
