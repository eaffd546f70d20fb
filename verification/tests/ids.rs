use xray_tracing::ids::{SegmentId, TraceId};

fn is_lower_hex(text: &str) -> bool {
    text.chars().all(|c| matches!(c, '0'..='9' | 'a'..='f'))
}

#[test]
fn generated_trace_id_has_the_fixed_shape() {
    for _ in 0..64 {
        let text = TraceId::new().to_string();
        assert_eq!(text.len(), 35);
        assert_eq!(&text[0..2], "1-");
        assert!(is_lower_hex(&text[2..10]));
        assert_eq!(&text[10..11], "-");
        assert!(is_lower_hex(&text[11..35]));
    }
}

#[test]
fn generated_segment_id_has_the_fixed_shape() {
    for _ in 0..64 {
        let text = SegmentId::new().to_string();
        assert_eq!(text.len(), 16);
        assert!(is_lower_hex(&text));
    }
}

#[test]
fn generated_ids_are_of_the_generated_kind() {
    assert!(matches!(TraceId::new(), TraceId::New(_, _)));
    assert!(matches!(SegmentId::new(), SegmentId::New(_)));
    assert!(matches!(TraceId::default(), TraceId::New(_, _)));
    assert!(matches!(SegmentId::default(), SegmentId::New(_)));
}

#[test]
fn generated_trace_id_carries_the_current_time() {
    match TraceId::new() {
        TraceId::New(seconds, _) => assert!(seconds > 1_600_000_000),
        TraceId::Rendered(_) => panic!("a generated id was expected"),
    }
}

#[test]
fn generated_bytes_are_random() {
    assert_ne!(SegmentId::new(), SegmentId::New([0; 8]));
    assert_ne!(SegmentId::new(), SegmentId::new());
    match (TraceId::new(), TraceId::new()) {
        (TraceId::New(_, first), TraceId::New(_, second)) => {
            assert_ne!(first, [0; 12]);
            assert_ne!(first, second);
        }
        _ => panic!("generated ids were expected"),
    }
}

#[test]
fn trace_id_text_from_known_parts() {
    let id = TraceId::New(
        0x5759_e988,
        [0xbd, 0x86, 0x2e, 0x3f, 0xe1, 0xbe, 0x46, 0xa9, 0x94, 0x27, 0x27, 0x93],
    );
    assert_eq!(id.to_string(), "1-5759e988-bd862e3fe1be46a994272793");
}

#[test]
fn trace_id_seconds_are_padded_to_eight_digits() {
    assert_eq!(TraceId::New(0, [0; 12]).to_string(), "1-00000000-000000000000000000000000");
    assert_eq!(TraceId::New(0x1f, [0xff; 12]).to_string(), "1-0000001f-ffffffffffffffffffffffff");
    assert_eq!(
        TraceId::New(0xffff_ffff, [1; 12]).to_string(),
        "1-ffffffff-010101010101010101010101"
    );
}

#[test]
fn trace_id_seconds_beyond_eight_digits_are_not_cut() {
    assert_eq!(
        TraceId::New(0x1_0000_0000, [0; 12]).to_string(),
        "1-100000000-000000000000000000000000"
    );
    assert_eq!(
        TraceId::New(u64::MAX, [0; 12]).to_string(),
        "1-ffffffffffffffff-000000000000000000000000"
    );
}

#[test]
fn trace_id_text_agrees_with_std_formatting() {
    let seconds: u64 = 1_545_136_342;
    let bytes: [u8; 12] = [0, 1, 2, 0x7f, 0x80, 0xfe, 0xff, 9, 10, 11, 12, 13];
    let mut expected = format!("1-{:08x}-", seconds);
    for byte in bytes {
        expected.push_str(&format!("{:02x}", byte));
    }
    assert_eq!(TraceId::New(seconds, bytes).to_string(), expected);
}

#[test]
fn segment_id_text_from_known_bytes() {
    let id = SegmentId::New([0x53, 0x99, 0x5c, 0x3f, 0x42, 0xcd, 0x8a, 0xd8]);
    assert_eq!(id.to_string(), "53995c3f42cd8ad8");
}

#[test]
fn received_ids_are_kept_as_they_came() {
    assert_eq!(TraceId::Rendered("anything at all".into()).to_string(), "anything at all");
    assert_eq!(SegmentId::Rendered("".into()).to_string(), "");
    assert_eq!(SegmentId::Rendered("XYZ".into()).to_string(), "XYZ");
}

#[test]
fn ids_are_equal_when_their_texts_are() {
    let made = TraceId::New(
        0x5759_e988,
        [0xbd, 0x86, 0x2e, 0x3f, 0xe1, 0xbe, 0x46, 0xa9, 0x94, 0x27, 0x27, 0x93],
    );
    let received = TraceId::Rendered("1-5759e988-bd862e3fe1be46a994272793".into());
    assert_eq!(made, received);
    assert_eq!(received, made);
    assert_ne!(made, TraceId::Rendered("1-5759e988-bd862e3fe1be46a994272794".into()));
    assert_ne!(made, TraceId::New(0x5759_e989, [0; 12]));

    let made = SegmentId::New([0x53, 0x99, 0x5c, 0x3f, 0x42, 0xcd, 0x8a, 0xd8]);
    assert_eq!(made, SegmentId::Rendered("53995c3f42cd8ad8".into()));
    assert_ne!(made, SegmentId::Rendered("53995C3F42CD8AD8".into()));
    assert_eq!(made.clone(), made);
}
