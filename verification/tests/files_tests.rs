use eva_ics::extract::{Extract, ExtractBoolOrStr, ExtractError};
use eva_ics::filewriter::{
    default_fields, escape_csv, is_path_pattern, repair_length, rotation_plan, truncate_next,
    truncate_start, truncated_length, DataFormat, DataGen, FieldKind, LineCache, RotationPlan,
    StateText, TruncateStep,
};
use eva_ics::hex::{hex_decode, hex_encode};
use eva_ics::manifest::{bytes_from_base64, sha256_from_hex, Entry, Manifest, ManifestError};
use eva_ics::pvt::{format_and_check_path, PvtOp, PvtPathError};
use openssl::hash::MessageDigest;
use openssl::pkey::PKey;
use openssl::rsa::Rsa;
use openssl::sign::Signer;

fn state() -> StateText {
    StateText {
        oid: "sensor:tests/s1".to_string(),
        kind: "sensor".to_string(),
        group: Some("tests".to_string()),
        id: "s1".to_string(),
        timestamp: "1700000000.5".to_string(),
        time: "2023-11-14T22:13:20.5+00:00".to_string(),
        status: 1,
        value: Some("a,\"b\"".to_string()),
    }
}

#[test]
fn csv_escaping() {
    assert_eq!(escape_csv("plain"), "plain");
    assert_eq!(escape_csv("a,b"), "\"a,b\"");
    assert_eq!(escape_csv("say \"hi\""), "\"say \"\"hi\"\"\"");
}

#[test]
fn csv_lines_and_header() {
    let g = DataGen::new(DataFormat::Csv, false, None);
    assert_eq!(g.fields, default_fields(DataFormat::Csv));
    let h = String::from_utf8(g.header().unwrap()).unwrap();
    assert_eq!(h, "OID,Type,Group,Id,Timestamp,Time,Status,Value\n");
    let l = String::from_utf8(g.csv_line(&state())).unwrap();
    assert_eq!(
        l,
        "sensor:tests/s1,sensor,tests,s1,1700000000.5,2023-11-14T22:13:20.5+00:00,1,\"a,\"\"b\"\"\"\n"
    );
    let dos = DataGen::new(DataFormat::Csv, true, Some(vec![FieldKind::Id, FieldKind::Status]));
    assert_eq!(String::from_utf8(dos.csv_line(&state())).unwrap(), "s1,1\r\n");
    let json = DataGen::new(DataFormat::Json, false, None);
    assert!(json.header().is_none());
}

#[test]
fn broken_last_line_is_cut() {
    assert_eq!(repair_length(&b"a\nb\n".to_vec()), None);
    assert_eq!(repair_length(&b"a\nbroken".to_vec()), Some(2));
    assert_eq!(repair_length(&b"nolines".to_vec()), Some(0));
    assert_eq!(truncated_length(&b"x".to_vec()), 0);
    assert_eq!(truncate_start(1), TruncateStep::SetLen(0));
    assert_eq!(truncate_start(10), TruncateStep::ReadAt(8));
    assert_eq!(truncate_next(5, b'\n'), TruncateStep::SetLen(6));
    assert_eq!(truncate_next(5, b'x'), TruncateStep::ReadAt(4));
    assert_eq!(truncate_next(1, b'x'), TruncateStep::SetLen(0));
}

#[test]
fn rotation_and_patterns() {
    assert!(is_path_pattern("/data/%Y%m%d.csv"));
    assert_eq!(rotation_plan("/data/out.csv", None), RotationPlan::RenameWithTimeSuffix);
    assert_eq!(rotation_plan("/data/%Y.csv", None), RotationPlan::NewFromPattern);
    assert_eq!(rotation_plan("/data/out.csv", Some("/data/%Y.csv")), RotationPlan::RenameToRotated);
}

#[test]
fn duplicate_lines_are_written_once() {
    let mut c = LineCache::new();
    assert!(c.can_write_line(true, b"line1", 100));
    assert!(!c.can_write_line(true, b"line1", 105));
    assert!(c.can_write_line(true, b"line2", 105));
    assert!(c.can_write_line(false, b"line1", 106));
    c.clean(200, 50);
    assert!(c.entries().is_empty());
    assert!(c.can_write_line(true, b"line1", 200));
    assert_eq!(c.entries(), &vec![(openssl::sha::sha256(b"line1").to_vec(), 200)]);
}

#[test]
fn hex_round_trip() {
    assert_eq!(hex_encode(&[0, 0xab, 0x10]), "00ab10");
    assert_eq!(hex_decode(b"00AB10"), Some(vec![0, 0xab, 0x10]));
    assert_eq!(hex_decode(b"0"), None);
    assert_eq!(hex_decode(b"zz"), None);
}

#[test]
fn manifest_texts() {
    let h = "00".repeat(32);
    assert_eq!(sha256_from_hex(&h).unwrap(), vec![0u8; 32]);
    assert_eq!(sha256_from_hex("00"), Err(ManifestError::InvalidSha256Length));
    assert_eq!(sha256_from_hex("xyz"), Err(ManifestError::InvalidHex));
    assert_eq!(bytes_from_base64("AQID").unwrap(), vec![1, 2, 3]);
    assert_eq!(bytes_from_base64("!!"), Err(ManifestError::InvalidBase64));
}

fn signed_manifest() -> (Manifest, Vec<u8>) {
    let rsa = Rsa::generate(2048).unwrap();
    let pub_der = rsa.public_key_to_der_pkcs1().unwrap();
    let key = PKey::from_rsa(rsa).unwrap();
    let sum = openssl::sha::sha256(b"distribution");
    let mut signer = Signer::new(MessageDigest::sha256(), &key).unwrap();
    signer.update(&sum).unwrap();
    let sig = signer.sign_to_vec().unwrap();
    let entry = Entry::new(12, sum.to_vec(), sig).unwrap();
    let m = Manifest::new(
        "4.0.2".to_string(),
        2024,
        vec![("eva-4.0.2.tgz".to_string(), entry)],
    );
    (m, pub_der)
}

#[test]
fn manifest_verifies_files() {
    let (mut m, key) = signed_manifest();
    let sum = openssl::sha::sha256(b"distribution");
    assert_eq!(m.files(), vec!["eva-4.0.2.tgz".to_string()]);
    assert_eq!(m.version(), "4.0.2");
    assert_eq!(m.build(), 2024);
    assert_eq!(m.contains("/tmp/x/eva-4.0.2.tgz"), Ok(true));
    assert_eq!(m.contains("other"), Ok(false));
    assert_eq!(m.contains(".."), Err(ManifestError::FileNameUnparsable));
    assert_eq!(m.verify("eva-4.0.2.tgz", 12, &sum), Err(ManifestError::NoPublicKey));
    m.set_pub_key(key);
    assert_eq!(m.verify("dir/eva-4.0.2.tgz", 12, &sum), Ok(()));
    assert_eq!(
        m.verify("eva-4.0.2.tgz", 13, &sum),
        Err(ManifestError::SizeMismatch("eva-4.0.2.tgz".to_string()))
    );
    assert_eq!(
        m.verify("eva-4.0.2.tgz", 12, &[0u8; 32]),
        Err(ManifestError::ChecksumMismatch("eva-4.0.2.tgz".to_string()))
    );
    assert_eq!(
        m.verify("nope.tgz", 12, &sum),
        Err(ManifestError::NotIncluded("nope.tgz".to_string()))
    );
    let (_, other_key) = signed_manifest();
    m.set_pub_key(other_key);
    assert_eq!(
        m.verify("eva-4.0.2.tgz", 12, &sum),
        Err(ManifestError::SignatureInvalid("eva-4.0.2.tgz".to_string()))
    );
}

#[test]
fn manifest_entry_getters() {
    let e = Entry::new(5, vec![7; 32], vec![3]).unwrap();
    assert_eq!(e.size(), 5);
    assert_eq!(e.sha256(), &[7; 32]);
    assert_eq!(e.signature(), &[3]);
    assert!(matches!(Entry::new(5, vec![1, 2], vec![3]), Err(ManifestError::InvalidSha256Length)));
}

#[test]
fn extraction_kind_from_source_name() {
    let t = ExtractBoolOrStr::Bool(true);
    assert_eq!(t.normalize(Some("/src/a.tar.gz")), Ok(ExtractBoolOrStr::Extr(Extract::Tgz)));
    assert_eq!(t.normalize(Some("https://x/b.tbz2")), Ok(ExtractBoolOrStr::Extr(Extract::Tbz2)));
    assert_eq!(t.normalize(Some("c.tar.xz")), Ok(ExtractBoolOrStr::Extr(Extract::Txz)));
    assert_eq!(t.normalize(Some("d.zip")), Ok(ExtractBoolOrStr::Extr(Extract::Zip)));
    assert_eq!(t.normalize(Some("e.tar")), Ok(ExtractBoolOrStr::Extr(Extract::Tar)));
    assert_eq!(t.normalize(Some("f.txt")), Err(ExtractError::UnsupportedExtension));
    assert_eq!(t.normalize(Some("/")), Err(ExtractError::UnknownExtension));
    assert_eq!(t.normalize(None), Err(ExtractError::NoSource));
    assert_eq!(ExtractBoolOrStr::Bool(false).normalize(None), Ok(ExtractBoolOrStr::Extr(Extract::No)));
    assert_eq!(ExtractBoolOrStr::Extr(Extract::Zip).normalize(None), Ok(ExtractBoolOrStr::Extr(Extract::Zip)));
    assert!(ExtractBoolOrStr::default().is_no());
    assert!(ExtractBoolOrStr::Extr(Extract::No).is_no());
    assert!(!ExtractBoolOrStr::Extr(Extract::Tar).is_no());
}

fn admin_acl() -> eva_common::acl::Acl {
    serde_json::from_str(r#"{"id":"admin","admin":true,"from":[]}"#).unwrap()
}

fn reader_acl() -> eva_common::acl::Acl {
    serde_json::from_str(r#"{"id":"r","read":{"pvt":["docs/#"]},"from":[]}"#).unwrap()
}

#[test]
fn private_paths_are_checked() {
    let admin = admin_acl();
    assert_eq!(format_and_check_path("a/b.txt", None, &admin, PvtOp::Read), Err(PvtPathError::NotSet));
    assert_eq!(
        format_and_check_path("a/b.txt", Some("/opt/pvt"), &admin, PvtOp::Read),
        Ok("/opt/pvt/a/b.txt".to_string())
    );
    assert_eq!(format_and_check_path("/", Some("/opt/pvt"), &admin, PvtOp::List), Ok("/opt/pvt".to_string()));
    assert_eq!(format_and_check_path("/etc/passwd", Some("/opt/pvt"), &admin, PvtOp::Read), Err(PvtPathError::Absolute));
    assert_eq!(format_and_check_path("a/../../x", Some("/opt/pvt"), &admin, PvtOp::Read), Err(PvtPathError::ParentDir));
    assert_eq!(format_and_check_path("a/./b", Some("/opt/pvt"), &admin, PvtOp::Read), Err(PvtPathError::CurrentDir));
    assert_eq!(format_and_check_path("./b", Some("/opt/pvt"), &admin, PvtOp::Read), Err(PvtPathError::CurrentDir));
    let reader = reader_acl();
    assert_eq!(
        format_and_check_path("docs/x", Some("/opt/pvt"), &reader, PvtOp::Read),
        Ok("/opt/pvt/docs/x".to_string())
    );
    assert_eq!(
        format_and_check_path("docs/x", Some("/opt/pvt"), &reader, PvtOp::Write),
        Err(PvtPathError::AccessDenied)
    );
    assert_eq!(
        format_and_check_path("secret/x", Some("/opt/pvt"), &reader, PvtOp::List),
        Ok("/opt/pvt/secret/x".to_string())
    );
}
