use eva_ics::cleaner::FileCleaner;
use eva_ics::cloud::{
    all_succeeded, confirmed, distro_name, mirror_download_needed, mirror_repository, mirror_wants, manifest_url, parse_forced_version, release_url, spoint_id,
    spoint_proceeds, update_info_url, update_plan, update_script_name, UpdateError, UpdatePlan,
    UpdateRequest, UpdateResult, UpdateResultKind,
};
use eva_ics::urls::{request_url, IsUrl};

#[test]
fn cleaner_keeps_each_path_once() {
    let mut c = FileCleaner::new();
    c.append("var/update.lock");
    c.append("update-1.sh");
    c.append("var/update.lock");
    assert_eq!(c.paths().len(), 2);
    let paths = c.clear();
    assert_eq!(paths, vec!["var/update.lock".to_string(), "update-1.sh".to_string()]);
    assert!(c.paths().is_empty());
}

#[test]
fn cleaner_treats_equal_paths_as_one() {
    let mut c = FileCleaner::new();
    c.append("a/b");
    c.append("a//b");
    assert_eq!(c.paths().len(), 1);
}

#[test]
fn urls_are_told_from_paths() {
    assert!("http://pub.bma.ai/eva4".is_url());
    assert!("https://pub.bma.ai".is_url());
    assert!("http:".is_url());
    assert!(!"/opt/eva4".is_url());
    assert!(!"httpx://host".is_url());
    assert!(!"./http://x".is_url());
}

#[test]
fn request_url_adds_scheme() {
    assert_eq!(request_url("pub.bma.ai/eva4"), "http://pub.bma.ai/eva4");
    assert_eq!(request_url("https://x/y"), "https://x/y");
}

#[test]
fn forced_version_parses() {
    assert_eq!(parse_forced_version("4.0.2:2024050101"), Ok(("4.0.2".to_string(), 2024050101)));
    assert_eq!(parse_forced_version("4.0.2"), Err(UpdateError::NoBuild));
    assert_eq!(parse_forced_version("4.0.2:x"), Err(UpdateError::InvalidBuild));
}

#[test]
fn update_plan_compares_builds() {
    assert_eq!(update_plan(5, 4), UpdatePlan::Update);
    assert_eq!(update_plan(3, 4), UpdatePlan::LocalNewer);
    assert_eq!(update_plan(4, 4), UpdatePlan::UpToDate);
    assert_eq!(distro_name("4.0.2", 2024, "x86_64-musl"), "eva-4.0.2-2024-x86_64-musl.tgz");
}

#[test]
fn update_request_selects_nodes() {
    let nodes = vec!["node1".to_string(), "node2/sp1".to_string()];
    let r = UpdateRequest::new(&nodes, false).unwrap();
    assert!(!r.update_all());
    assert!(r.wants_node("node1", true, true, "local"));
    assert!(r.wants_node("node2", true, true, "local"));
    assert!(!r.wants_node("node3", true, true, "local"));
    assert!(!r.wants_node("local", true, true, "local"));
    assert!(r.is_spoint_candidate("node2", "eva.spoint.sp1", true));
    assert!(!r.is_spoint_candidate("node2", "eva.spoint.sp2", true));
    assert_eq!(spoint_id("node2", "eva.spoint.sp1"), "node2/sp1");
    assert!(matches!(UpdateRequest::new(&Vec::new(), false), Err(UpdateError::NodesOrAll)));
    let all = UpdateRequest::new(&vec!["*".to_string()], false).unwrap();
    assert!(all.update_all());
}

#[test]
fn update_urls_and_outcomes() {
    assert_eq!(update_script_name(2024), "update-2024.sh");
    assert_eq!(release_url("https://r", "4.0.2", "f.tgz"), "https://r/4.0.2/nightly/f.tgz");
    assert_eq!(manifest_url("https://r", "4.0.2", 7), "https://r/4.0.2/nightly/manifest-7.json");
    assert_eq!(update_info_url("https://r", true), "https://r/update_info_test.json");
    assert_eq!(update_info_url("https://r", false), "https://r/update_info.json");
    let ok = UpdateResult::success("4.0.2".to_string(), 5);
    let failed = UpdateResult::upd_fail("4.0.2".to_string(), 4);
    let refused = UpdateResult::start_fail("4.0.1".to_string(), 3);
    assert!(spoint_proceeds(None));
    assert!(spoint_proceeds(Some(&ok)));
    assert!(!spoint_proceeds(Some(&failed)));
    assert!(!spoint_proceeds(Some(&refused)));
    assert!(all_succeeded(&vec![UpdateResult::success("a".to_string(), 1)]));
    assert!(!all_succeeded(&vec![ok, UpdateResult::fail(UpdateResultKind::UpdateFail)]));
    let nodes = vec!["node1".to_string(), "node2/sp1".to_string()];
    let r = UpdateRequest::new(&nodes, false).unwrap();
    assert!(r.is_node_candidate("node1", true, true));
    assert!(!r.is_node_candidate("node1", false, true));
    assert!(!r.is_node_candidate("node1", true, false));
    assert!(r.wants_spoints_of("node2"));
    assert!(!r.wants_spoints_of("node1"));
}

#[test]
fn mirror_files_and_url() {
    let distro = "eva-4.0.2-2024-x86_64-musl.tgz";
    assert!(mirror_wants("eva-4.0.2-2024-aarch64-musl.tgz", false, distro));
    assert!(!mirror_wants("eva-4.0.2-2024-aarch64-musl.tgz", true, distro));
    assert!(mirror_wants(distro, true, distro));
    assert!(mirror_wants("update.sh", true, distro));
    assert!(mirror_download_needed(true, true, true));
    assert!(mirror_download_needed(false, false, true));
    assert!(!mirror_download_needed(false, true, true));
    assert_eq!(
        mirror_repository("default"),
        ("https://pub.bma.ai (default)".to_string(), "https://pub.bma.ai/eva4".to_string())
    );
    assert_eq!(
        mirror_repository("http://m.local//"),
        ("http://m.local".to_string(), "http://m.local/eva".to_string())
    );
}

#[test]
fn confirmation_needs_yes() {
    assert!(confirmed("YES\n"));
    assert!(confirmed("  YES "));
    assert!(!confirmed("yes\n"));
    assert!(!confirmed("\n"));
}

#[test]
fn dump_chunks_fit_key() {
    let data: Vec<u8> = (0u8..30).collect();
    let c = eva_ics::dump::dump_chunks(&data, 21);
    assert_eq!(c.len(), 3);
    assert_eq!(c[0], (0u8..10).collect::<Vec<u8>>());
    assert_eq!(c[2], (20u8..30).collect::<Vec<u8>>());
    assert_eq!(c.concat(), data);
}

#[test]
fn dump_chunks_short_tail_and_edges() {
    let data: Vec<u8> = (0u8..7).collect();
    let c = eva_ics::dump::dump_chunks(&data, 16);
    assert_eq!(c, vec![vec![0, 1, 2, 3, 4], vec![5, 6]]);
    assert!(eva_ics::dump::dump_chunks(&data, 11).is_empty());
    assert!(eva_ics::dump::dump_chunks(&Vec::new(), 256).is_empty());
}

#[test]
fn dump_file_names() {
    assert_eq!(eva_ics::dump::dump_file_name("20240101120000123", true), "var/20240101120000123.sr");
    assert_eq!(
        eva_ics::dump::dump_file_name("20240101120000123", false),
        "var/20240101120000123.dump.bz2"
    );
}

#[test]
fn seal_dump_decrypts_back() {
    let rsa = openssl::rsa::Rsa::generate(1024).unwrap();
    let der = rsa.public_key_to_der_pkcs1().unwrap();
    let data: Vec<u8> = (0..300u32).map(|i| (i % 251) as u8).collect();
    let sealed = eva_ics::dump::seal_dump(&der, &data).unwrap();
    let size = rsa.size() as usize;
    assert_eq!(sealed.len(), size * 3);
    let mut plain = Vec::new();
    for block in sealed.chunks(size) {
        let mut out = vec![0u8; size];
        let n = rsa.private_decrypt(block, &mut out, openssl::rsa::Padding::PKCS1).unwrap();
        plain.extend_from_slice(&out[..n]);
    }
    assert_eq!(plain, data);
}

#[test]
fn seal_dump_refuses_bad_key() {
    assert_eq!(
        eva_ics::dump::seal_dump(b"not a key", &vec![1, 2, 3]),
        Err(eva_ics::dump::SealError::BadKey)
    );
}

#[test]
fn upgradable_same_major_older_build() {
    assert!(eva_ics::cloud::upgradable("4.1.0", 2025010101, "4.0.2", 2024010101));
    assert!(!eva_ics::cloud::upgradable("4.1.0", 2025010101, "4.0.2", 2025010101));
    assert!(!eva_ics::cloud::upgradable("4.1.0", 2024010101, "4.0.2", 2025010101));
    assert!(!eva_ics::cloud::upgradable("4.1.0", 2025010101, "3.9.9", 2024010101));
    assert!(!eva_ics::cloud::upgradable("4.1.0", 2025010101, "x.1", 2024010101));
    assert!(eva_ics::cloud::upgradable("+4", 2, "4", 1));
}
