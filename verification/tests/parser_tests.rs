use eva_ics::call_parser::{parse_call_str, parse_val, ParseError};
use eva_ics::data::Datum;
use eva_ics::decimal::{i64_to_string, parse_u16, parse_u32, parse_u64};
use eva_ics::modbus::{
    parse_host_port, parse_serial, rtu_request, remaining_len, ascii_request, DataBits,
    FrameError, ListenError, Parity, SerialProto, StopBits,
};
use eva_ics::target::{prepare_sampling, Target};

fn chars(s: &str) -> Vec<char> {
    s.chars().collect()
}

fn text(d: &Datum) -> Option<&str> {
    match d {
        Datum::Text(s) => Some(s.as_str()),
        _ => None,
    }
}

fn entry<'a>(m: &'a [(Datum, Datum)], key: &str) -> Option<&'a Datum> {
    m.iter().find(|(k, _)| text(k) == Some(key)).map(|(_, v)| v)
}

#[test]
fn call_string_with_default_key_and_numbers() {
    let (method, params) = parse_call_str("lvar.set lvar:tests/t1 value=5").unwrap();
    assert_eq!(method, "lvar.set");
    let Datum::Mapping(m) = params else { panic!("params are a map") };
    assert_eq!(m.len(), 2);
    assert_eq!(text(entry(&m, "i").unwrap()), Some("lvar:tests/t1"));
    assert!(matches!(entry(&m, "value").unwrap(), Datum::U64(5)));
}

#[test]
fn call_string_repeated_key_collects_values() {
    let (_, params) = parse_call_str("m x=1 x=2,3").unwrap();
    let Datum::Mapping(m) = params else { panic!() };
    let Datum::Sequence(v) = entry(&m, "x").unwrap() else { panic!("a sequence") };
    assert_eq!(v.len(), 3);
    assert!(matches!(v[0], Datum::U64(1)));
    assert!(matches!(v[2], Datum::U64(3)));
}

#[test]
fn call_string_sub_key_builds_map() {
    let (_, params) = parse_call_str("m cfg.a=1 cfg.b=x").unwrap();
    let Datum::Mapping(m) = params else { panic!() };
    let Datum::Mapping(inner) = entry(&m, "cfg").unwrap() else { panic!("a map") };
    assert!(matches!(entry(inner, "a").unwrap(), Datum::U64(1)));
    assert_eq!(text(entry(inner, "b").unwrap()), Some("x"));
}

#[test]
fn call_string_errors() {
    assert!(matches!(parse_call_str(""), Err(ParseError::NoMethod)));
    assert!(matches!(parse_call_str("m \"unclosed"), Err(ParseError::UnparsableInput)));
    assert!(matches!(parse_call_str("m a=1 b"), Err(ParseError::NoKey(k)) if k == "b"));
    assert!(matches!(parse_call_str("m a=1 a.b=2"), Err(ParseError::NotAMap(k)) if k == "a"));
    assert!(matches!(parse_val(&chars("x=1;y")), Err(ParseError::KeyWithNoValue(k)) if k == "y"));
}

#[test]
fn value_map_and_sequence() {
    let Ok(Datum::Mapping(m)) = parse_val(&chars("a=1;b=true")) else { panic!() };
    assert!(matches!(entry(&m, "b").unwrap(), Datum::Bool(true)));
    let Ok(Datum::Sequence(v)) = parse_val(&chars("1,-2,x")) else { panic!() };
    assert!(matches!(v[1], Datum::I64(-2)));
    assert_eq!(text(&v[2]), Some("x"));
}

#[test]
fn decimal_numbers() {
    assert_eq!(parse_u16("502"), Some(502));
    assert_eq!(parse_u16("+80"), Some(80));
    assert_eq!(parse_u16("65536"), None);
    assert_eq!(parse_u16(""), None);
    assert_eq!(parse_u16("1x"), None);
    assert_eq!(parse_u32("4294967295"), Some(u32::MAX));
    assert_eq!(parse_u64("18446744073709551615"), Some(u64::MAX));
    assert_eq!(parse_u64("18446744073709551616"), None);
    assert_eq!(i64_to_string(i64::MIN), "-9223372036854775808");
    assert_eq!(i64_to_string(42), "42");
}

#[test]
fn host_port_defaults_to_502() {
    assert_eq!(parse_host_port("0.0.0.0").unwrap(), ("0.0.0.0".to_string(), 502));
    assert_eq!(parse_host_port("localhost:5020").unwrap(), ("localhost".to_string(), 5020));
    assert_eq!(parse_host_port("h:70000"), Err(ListenError::InvalidPort));
}

#[test]
fn serial_specification() {
    let p = parse_serial("/dev/ttyS0:9600:8:N:1").unwrap();
    assert_eq!(p.port_path, "/dev/ttyS0");
    assert_eq!(p.baud_rate, 9600);
    assert_eq!(p.data_bits, DataBits::Eight);
    assert_eq!(p.parity, Parity::NoParity);
    assert_eq!(p.stop_bits, StopBits::One);
    assert_eq!(parse_serial("/dev/ttyS0").err(), Some(ListenError::BaudRateMissing));
    assert_eq!(parse_serial("/dev/ttyS0:fast").err(), Some(ListenError::InvalidBaudRate));
    assert_eq!(parse_serial("/dev/ttyS0:9600").err(), Some(ListenError::DataBitsMissing));
    assert_eq!(
        parse_serial("/dev/ttyS0:9600:9:N:1").err(),
        Some(ListenError::UnsupportedDataBits("9".to_string()))
    );
    assert_eq!(parse_serial("/dev/ttyS0:9600:7").err(), Some(ListenError::ParityMissing));
    assert_eq!(
        parse_serial("/dev/ttyS0:9600:7:X:1").err(),
        Some(ListenError::UnsupportedParity("X".to_string()))
    );
    assert_eq!(parse_serial("/dev/ttyS0:9600:7:E").err(), Some(ListenError::StopBitsMissing));
    assert_eq!(
        parse_serial("/dev/ttyS0:9600:7:O:3").err(),
        Some(ListenError::UnsupportedStopBits("3".to_string()))
    );
}

#[test]
fn rtu_request_lengths_and_buffer() {
    assert_eq!(remaining_len(&[1, 3, 0], SerialProto::Rtu), Ok(5));
    assert_eq!(remaining_len(&[1, 16, 0, 0, 0, 2, 4], SerialProto::Rtu), Ok(6));
    assert_eq!(remaining_len(&[1], SerialProto::Rtu), Err(FrameError::UnknownLength));
    let buf = rtu_request(&[1, 3, 0], &[0, 0, 1, 0x84, 0x0a]).unwrap();
    assert_eq!(buf.len(), 256);
    assert_eq!(&buf[..8], &[1, 3, 0, 0, 0, 1, 0x84, 0x0a]);
    assert!(buf[8..].iter().all(|b| *b == 0));
    assert_eq!(rtu_request(&[0; 200], &[0; 57]), Err(FrameError::TooLong));
}

#[test]
fn ascii_request_decodes() {
    let head = b":010300";
    let rest = b"000001FB\r\n";
    let buf = ascii_request(head, rest).unwrap();
    assert_eq!(&buf[..6], &[1, 3, 0, 0, 0, 1]);
    assert_eq!(buf.len(), 256);
    assert_eq!(ascii_request(b":0Z", b""), Err(FrameError::InvalidAscii));
    assert!(remaining_len(head, SerialProto::Ascii).is_ok());
}

#[test]
fn target_service_with_params() {
    let t = Target::from_str("eva.svc.x::test@b=2,1,a=3");
    assert_eq!(t.to_string(), "eva.svc.x::test@a=3,b=2,1");
    let t = Target::from_str("eva.svc.x");
    assert_eq!(t.to_string(), "eva.svc.x::var.set");
    let t = Target::from_str("eva.svc.x::m@a=1,a=2");
    assert_eq!(t.to_string(), "eva.svc.x::m@a=2");
}

#[test]
fn target_oid() {
    let t = Target::from_str("sensor:tests/s1");
    assert!(matches!(t, Target::Oid(ref o) if o == "sensor:tests/s1"));
    assert_eq!(t.to_string(), "sensor:tests/s1");
    let t = Target::from_str("S:tests/s1");
    assert_eq!(t.to_string(), "sensor:tests/s1");
}

#[test]
fn sampling_zero_refused() {
    assert_eq!(prepare_sampling(Some(0), 1), None);
    assert_eq!(prepare_sampling(Some(5), 1), Some(5));
    assert_eq!(prepare_sampling(None, 1), Some(1));
}

#[test]
fn service_target_text_reads_back() {
    let t = Target::from_str("eva.svc.x::test@b=2,1,a=3");
    let text = t.to_string();
    let back = Target::from_str(&text);
    assert_eq!(back.to_string(), text);
    let t = Target::from_str("eva.svc.y::m@k=v=w,i=x");
    assert_eq!(t.to_string(), "eva.svc.y::m@x,k=v=w");
    let back = Target::from_str(&t.to_string());
    assert_eq!(back.to_string(), "eva.svc.y::m@x,k=v=w");
}
