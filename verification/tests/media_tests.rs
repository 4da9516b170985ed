use eva_ics::bulk::{
    bulk_frame, check_bulk_access, check_bulk_header, pack_bulk_records, seal_packet,
    split_bulk_frame, BulkError, BulkPacker, BulkSplit,
};
use eva_ics::pipeline::{
    buffers_pending, first_frame_step, format_name, next_frame_step, out_frame,
    parse_frame_header, raw_value, route_frame, FirstFrame, FrameHeader, FrameRoute, FrameValue,
    NextFrame, PipelineState, RawValue,
};

const HDR: [u8; 5] = [0xdd, 0, 0, 0, 0];

fn packet(body: &[u8]) -> Vec<u8> {
    let mut v = HDR.to_vec();
    v.extend_from_slice(body);
    v
}

#[test]
fn records_are_packed_greedily() {
    let records = vec![vec![1u8, 2, 3], vec![4, 5], vec![6]];
    let packets = pack_bulk_records(&records, 15);
    assert_eq!(packets, vec![(packet(&[1, 2, 3, 4, 5]), 2), (packet(&[6]), 1)]);
    let one = pack_bulk_records(&records, 100);
    assert_eq!(one, vec![(packet(&[1, 2, 3, 4, 5, 6]), 3)]);
    let none = pack_bulk_records(&Vec::new(), 100);
    assert_eq!(none, vec![(HDR.to_vec(), 0)]);
}

#[test]
fn oversized_record_travels_alone() {
    let records = vec![vec![7u8; 20], vec![8]];
    let packets = pack_bulk_records(&records, 15);
    assert_eq!(
        packets,
        vec![(HDR.to_vec(), 0), (packet(&[7u8; 20]), 1), (packet(&[8]), 1)]
    );
    assert_eq!(seal_packet(HDR.to_vec(), 0), Ok(None));
}

#[test]
fn packer_follows_the_estimate() {
    let mut p = BulkPacker::new();
    assert_eq!(p.add_estimated(&[1, 2], 3, 10), None);
    assert_eq!(p.count(), 1);
    assert_eq!(p.add_estimated(&[3], 11, 10), Some((packet(&[1, 2]), 1)));
    assert_eq!(p.bytes(), &packet(&[3]));
    assert_eq!(p.add(&[4, 5, 6, 7, 8], 10), Some((packet(&[3]), 1)));
    assert_eq!(p.into_parts(), (packet(&[4, 5, 6, 7, 8]), 1));
}

#[test]
fn sealing_writes_the_count() {
    assert_eq!(seal_packet(packet(&[9]), 1), Ok(Some(vec![0xdd, 0, 0, 0, 1, 9])));
    assert_eq!(
        seal_packet(packet(&[9]), 0x0102_0304),
        Ok(Some(vec![0xdd, 1, 2, 3, 4, 9]))
    );
    assert_eq!(seal_packet(HDR.to_vec(), 5), Ok(None));
    assert_eq!(seal_packet(packet(&[9]), 0), Ok(None));
    assert_eq!(seal_packet(packet(&[9]), 0x1_0000_0000), Err(BulkError::CountTooLarge));
}

#[test]
fn frames_are_built_and_read_back() {
    let frame = bulk_frame(2, 3, "node1", Some("k"), &[9, 0, 8]);
    assert_eq!(
        frame,
        vec![0, 2, 3, 0, 0, b'n', b'o', b'd', b'e', b'1', 0, b'k', 0, 9, 0, 8]
    );
    assert_eq!(check_bulk_header(&frame, 2), Ok(3));
    match split_bulk_frame(&frame, "node2") {
        Ok(BulkSplit::Remote(f)) => {
            assert_eq!(f.system_name, "node1");
            assert_eq!(f.key_id, b"k".to_vec());
            assert_eq!(f.header_len, 13);
            assert_eq!(&frame[f.header_len..], &[9, 0, 8]);
        }
        _ => panic!("the frame should come from a remote node"),
    }
    assert!(matches!(split_bulk_frame(&frame, "node1"), Ok(BulkSplit::Own)));
    let plain = bulk_frame(2, 0, "n", None, &[]);
    assert_eq!(plain, vec![0, 2, 0, 0, 0, b'n', 0, 0]);
    match split_bulk_frame(&plain, "x") {
        Ok(BulkSplit::Remote(f)) => {
            assert!(f.key_id.is_empty());
            assert_eq!(f.header_len, 8);
        }
        _ => panic!("the frame should come from a remote node"),
    }
}

#[test]
fn broken_frames_are_refused() {
    assert_eq!(check_bulk_header(&[0, 2, 3], 2), Err(BulkError::FrameTooShort));
    assert_eq!(check_bulk_header(&[1, 2, 3, 0, 0], 2), Err(BulkError::BadHeader));
    assert_eq!(check_bulk_header(&[0, 1, 3, 0, 0], 2), Err(BulkError::UnsupportedProto));
    assert!(matches!(
        split_bulk_frame(&[0, 2, 3, 0, 0, b'a'], "x"),
        Err(BulkError::MissingKeyId)
    ));
    assert!(matches!(
        split_bulk_frame(&[0, 2, 3, 0, 0, b'a', 0, b'k'], "x"),
        Err(BulkError::MissingPayload)
    ));
    assert!(matches!(
        split_bulk_frame(&[0, 2, 3, 0, 0, 0xff, 0, 0], "x"),
        Err(BulkError::NameNotUtf8)
    ));
    assert!(matches!(split_bulk_frame(&[0, 2, 3, 0, 0], "x"), Err(BulkError::MissingKeyId)));
    assert_eq!(check_bulk_access(true, false), Err(BulkError::Unencrypted));
    assert_eq!(check_bulk_access(true, true), Ok(()));
    assert_eq!(check_bulk_access(false, false), Ok(()));
}

#[test]
fn frame_headers_round_trip() {
    let h = FrameHeader::new(10, 640, 480);
    let bytes = h.to_bytes();
    assert_eq!(bytes, vec![0x45, 0x56, 0x53, 1, 10, 128, 2, 224, 1, 0]);
    assert_eq!(parse_frame_header(&bytes), Some(h));
    assert!(h.is_version_valid());
    assert!(!h.is_key_frame());
    let mut k = h;
    k.set_key_frame();
    assert!(k.is_key_frame());
    assert_eq!(parse_frame_header(&bytes[..9]), None);
    assert_eq!(parse_frame_header(&[0u8; 10]), None);
    assert_eq!(out_frame(&h, true, &[7, 7]), vec![0x45, 0x56, 0x53, 1, 10, 128, 2, 224, 1, 1, 7, 7]);
    assert_eq!(out_frame(&h, false, &[]), bytes);
}

fn frame(h: FrameHeader, data: &[u8]) -> Vec<u8> {
    let mut v = h.to_bytes();
    v.extend_from_slice(data);
    v
}

#[test]
fn pipeline_waits_for_a_usable_first_frame() {
    let raw = FrameHeader::new(0, 4, 4);
    let h264 = FrameHeader::new(10, 4, 4);
    let mut key = h264;
    key.set_key_frame();
    assert_eq!(first_frame_step(&raw.to_bytes()), FirstFrame::Wait);
    assert_eq!(first_frame_step(&frame(raw, &[1])), FirstFrame::Start(raw));
    assert_eq!(first_frame_step(&frame(h264, &[1])), FirstFrame::Wait);
    assert_eq!(first_frame_step(&frame(key, &[1])), FirstFrame::Start(key));
    assert_eq!(first_frame_step(&frame(FrameHeader::new(5, 4, 4), &[1])), FirstFrame::Fail);
    assert_eq!(first_frame_step(&[1u8; 12]), FirstFrame::Wait);
}

#[test]
fn running_pipeline_checks_each_frame() {
    let src = FrameHeader::new(10, 4, 4);
    let mut key = src;
    key.set_key_frame();
    assert_eq!(next_frame_step(&src.to_bytes(), &src), NextFrame::Eof);
    assert_eq!(next_frame_step(&[1u8; 12], &src), NextFrame::Invalid);
    assert_eq!(next_frame_step(&frame(FrameHeader::new(10, 8, 4), &[1]), &src), NextFrame::CapsChanged);
    assert_eq!(next_frame_step(&frame(FrameHeader::new(11, 4, 4), &[1]), &src), NextFrame::CapsChanged);
    assert_eq!(next_frame_step(&frame(key, &[1]), &src), NextFrame::Push);
}

#[test]
fn pipeline_states_and_routes() {
    assert_eq!(PipelineState::from_code(4), PipelineState::Playing);
    assert_eq!(PipelineState::from_code(0).as_str(), "void_pending");
    assert_eq!(PipelineState::from_code(9), PipelineState::Unknown);
    assert_eq!(PipelineState::Unknown.code(), -1);
    assert_eq!(PipelineState::Paused.as_str(), "paused");
    assert_eq!(buffers_pending(10, 4), 6);
    assert_eq!(buffers_pending(4, 10), 0);
    assert_eq!(format_name(11), Some("video/x-h265"));
    assert_eq!(format_name(3), None);
    assert!(matches!(route_frame(0, FrameValue::Bytes(vec![1])), FrameRoute::Publish(0)));
    assert!(matches!(route_frame(1, FrameValue::Missing), FrameRoute::Publish(1)));
    assert!(matches!(route_frame(1, FrameValue::Other), FrameRoute::Publish(1)));
    match route_frame(1, FrameValue::Bytes(vec![1, 2])) {
        FrameRoute::Process(b) => assert_eq!(b, vec![1, 2]),
        _ => panic!("bytes go to the pipeline"),
    }
    assert!(matches!(raw_value(1, vec![]), RawValue::Unit));
    assert!(matches!(raw_value(-1, vec![1]), RawValue::Unit));
    match raw_value(1, vec![3]) {
        RawValue::Bytes(b) => assert_eq!(b, vec![3]),
        RawValue::Unit => panic!("a state with data carries it"),
    }
}
