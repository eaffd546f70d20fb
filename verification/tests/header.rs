use xray_tracing::header::{Header, ParseError, SamplingDecision};
use xray_tracing::ids::{SegmentId, TraceId};

fn trace_id() -> TraceId {
    TraceId::Rendered("1-5759e988-bd862e3fe1be46a994272793".into())
}

#[test]
fn parse_with_parent_from_str() {
    let mut expected = Header::new(trace_id());
    expected
        .with_parent_id(SegmentId::Rendered("53995c3f42cd8ad8".into()))
        .with_sampling_decision(SamplingDecision::Sampled);
    assert_eq!(
        "Root=1-5759e988-bd862e3fe1be46a994272793;Parent=53995c3f42cd8ad8;Sampled=1"
            .parse::<Header>(),
        Ok(expected)
    )
}

#[test]
fn parse_no_parent_from_str() {
    let mut expected = Header::new(trace_id());
    expected.with_sampling_decision(SamplingDecision::Sampled);
    assert_eq!(
        "Root=1-5759e988-bd862e3fe1be46a994272793;Sampled=1".parse::<Header>(),
        Ok(expected)
    );
    let parsed = Header::parse("Root=1-5759e988-bd862e3fe1be46a994272793;Sampled=1")
        .expect("a header that can be read");
    assert_eq!(parsed.parent_id(), None);
}

#[test]
fn displays_as_header() {
    let header = Header::new(trace_id());
    assert_eq!(
        header.to_string(),
        "Root=1-5759e988-bd862e3fe1be46a994272793"
    );
}

#[test]
fn header_round_trip() {
    let text = "Root=1-5759e988-bd862e3fe1be46a994272793;Parent=53995c3f42cd8ad8;Sampled=1";
    let header = Header::parse(text).expect("a header that can be read");
    assert_eq!(header.trace_id().to_string(), "1-5759e988-bd862e3fe1be46a994272793");
    assert_eq!(
        header.parent_id().map(|id| id.to_string()),
        Some("53995c3f42cd8ad8".to_string())
    );
    assert_eq!(header.sampling_decision(), SamplingDecision::Sampled);
    assert_eq!(header.to_string(), text);
}

#[test]
fn round_trip_with_additional_data() {
    let mut header = Header::new(trace_id());
    header
        .with_parent_id(SegmentId::New([1, 2, 3, 4, 5, 6, 7, 8]))
        .with_sampling_decision(SamplingDecision::Requested)
        .with_data("b".to_string(), "2=two".to_string())
        .with_data("a".to_string(), "".to_string());
    let text = header.to_string();
    assert_eq!(
        text,
        "Root=1-5759e988-bd862e3fe1be46a994272793;Parent=0102030405060708;Sampled=?;b=2=two;a="
    );
    assert_eq!(Header::parse(&text), Ok(header));
}

#[test]
fn field_without_equals_sign_fails() {
    assert_eq!(
        Header::parse("Foo"),
        Err(ParseError::MalformedField("Foo".to_string()))
    );
    assert_eq!(
        "Root=1-5759e988-bd862e3fe1be46a994272793;Foo;Sampled=1".parse::<Header>(),
        Err(ParseError::MalformedField("Foo".to_string()))
    );
}

#[test]
fn the_first_bad_field_is_the_error() {
    assert_eq!(
        Header::parse("a=b;first;second"),
        Err(ParseError::MalformedField("first".to_string()))
    );
}

#[test]
fn empty_fields_fail() {
    assert_eq!(Header::parse(""), Err(ParseError::MalformedField(String::new())));
    assert_eq!(
        Header::parse("Root=1;"),
        Err(ParseError::MalformedField(String::new()))
    );
    assert_eq!(
        Header::parse("Root=1;;Sampled=1"),
        Err(ParseError::MalformedField(String::new()))
    );
}

#[test]
fn error_message_names_the_field() {
    let error = Header::parse("Root=1;Foo").expect_err("a field without an equals sign");
    assert_eq!(error.to_string(), "invalid key=value: no `=` found in `Foo`");
}

#[test]
fn self_field_is_dropped() {
    let header = Header::parse("Self=1-abc;Root=1-def").expect("a header that can be read");
    assert_eq!(header, Header::new(TraceId::Rendered("1-def".into())));
    assert_eq!(header.get("Self"), None);
    assert_eq!(header.to_string(), "Root=1-def");
}

#[test]
fn other_fields_are_kept_as_additional_data() {
    let header = Header::parse("Root=1;Key=Value;other=a=b=c;empty=;=nokey")
        .expect("a header that can be read");
    assert_eq!(header.get("Key"), Some(&"Value".to_string()));
    assert_eq!(header.get("other"), Some(&"a=b=c".to_string()));
    assert_eq!(header.get("empty"), Some(&String::new()));
    assert_eq!(header.get(""), Some(&"nokey".to_string()));
    assert_eq!(header.get("key"), None);
    assert_eq!(header.get("Root"), None);
    assert_eq!(header.to_string(), "Root=1;Key=Value;other=a=b=c;empty=;=nokey");
}

#[test]
fn later_fields_overwrite_earlier_ones() {
    let header = Header::parse("Root=1;Parent=a;Sampled=1;k=v;Root=2;Parent=b;Sampled=0;k=w")
        .expect("a header that can be read");
    assert_eq!(header.trace_id().to_string(), "2");
    assert_eq!(header.parent_id().map(|id| id.to_string()), Some("b".to_string()));
    assert_eq!(header.sampling_decision(), SamplingDecision::NotSampled);
    assert_eq!(header.get("k"), Some(&"w".to_string()));
    assert_eq!(header.to_string(), "Root=2;Parent=b;Sampled=0;k=w");
}

#[test]
fn unknown_sampling_code_is_lenient() {
    let header = Header::parse("Root=1;Sampled=yes").expect("a header that can be read");
    assert_eq!(header.sampling_decision(), SamplingDecision::Unknown);
    assert_eq!(header.get("Sampled"), None);
    assert_eq!(header.to_string(), "Root=1");
}

#[test]
fn without_root_a_trace_id_is_generated() {
    let header = Header::parse("Parent=53995c3f42cd8ad8").expect("a header that can be read");
    assert!(matches!(header.trace_id(), TraceId::New(_, _)));
    assert_eq!(header.trace_id().to_string().len(), 35);
    assert_eq!(
        header.parent_id().map(|id| id.to_string()),
        Some("53995c3f42cd8ad8".to_string())
    );
}

#[test]
fn reserved_names_need_their_exact_case() {
    let header = Header::parse("root=1;parent=2;sampled=1;self=3").expect("a header");
    assert!(matches!(header.trace_id(), TraceId::New(_, _)));
    assert_eq!(header.parent_id(), None);
    assert_eq!(header.sampling_decision(), SamplingDecision::Unknown);
    assert_eq!(header.get("root"), Some(&"1".to_string()));
    assert_eq!(header.get("self"), Some(&"3".to_string()));
}

#[test]
fn parse_onto_keeps_what_the_text_does_not_set() {
    let mut start = Header::new(trace_id());
    start
        .with_parent_id(SegmentId::Rendered("p".into()))
        .with_data("k".to_string(), "v".to_string());
    let header = start.parse_onto("Sampled=0;x=y").expect("a header that can be read");
    assert_eq!(
        header.to_string(),
        "Root=1-5759e988-bd862e3fe1be46a994272793;Parent=p;Sampled=0;k=v;x=y"
    );
}

#[test]
fn new_header_holds_only_the_trace_id() {
    let header = Header::new(trace_id());
    assert_eq!(header.trace_id(), &trace_id());
    assert_eq!(header.parent_id(), None);
    assert_eq!(header.sampling_decision(), SamplingDecision::Unknown);
    assert_eq!(header.get("anything"), None);
}

#[test]
fn default_header_has_a_generated_trace_id() {
    let header = Header::default();
    assert!(matches!(header.trace_id(), TraceId::New(_, _)));
    assert_eq!(header.parent_id(), None);
    assert_eq!(header.sampling_decision(), SamplingDecision::Unknown);
    assert_eq!(header.to_string().len(), "Root=".len() + 35);
}

#[test]
fn data_under_a_known_key_is_replaced_in_place() {
    let mut header = Header::new(TraceId::Rendered("t".into()));
    header
        .with_data("a".to_string(), "1".to_string())
        .with_data("b".to_string(), "2".to_string())
        .with_data("a".to_string(), "3".to_string());
    assert_eq!(header.get("a"), Some(&"3".to_string()));
    assert_eq!(header.get("b"), Some(&"2".to_string()));
    assert_eq!(header.to_string(), "Root=t;a=3;b=2");
}

#[test]
fn formats_each_part_in_order() {
    let mut header = Header::new(TraceId::Rendered("t".into()));
    header.with_sampling_decision(SamplingDecision::NotSampled);
    assert_eq!(header.to_string(), "Root=t;Sampled=0");
    header.with_parent_id(SegmentId::Rendered("p".into()));
    assert_eq!(header.to_string(), "Root=t;Parent=p;Sampled=0");
    header.with_sampling_decision(SamplingDecision::Unknown);
    assert_eq!(header.to_string(), "Root=t;Parent=p");
    header.with_data("k".to_string(), "v".to_string());
    assert_eq!(header.to_string(), "Root=t;Parent=p;k=v");
}

#[test]
fn equality_ignores_the_order_of_additional_data() {
    let mut first = Header::new(TraceId::Rendered("t".into()));
    first
        .with_data("a".to_string(), "1".to_string())
        .with_data("b".to_string(), "2".to_string());
    let mut second = Header::new(TraceId::Rendered("t".into()));
    second
        .with_data("b".to_string(), "2".to_string())
        .with_data("a".to_string(), "1".to_string());
    assert_eq!(first, second);
    second.with_data("a".to_string(), "other".to_string());
    assert_ne!(first, second);
    let mut third = Header::new(TraceId::Rendered("t".into()));
    third.with_data("a".to_string(), "1".to_string());
    assert_ne!(first, third);
    assert_ne!(third, first);
}

#[test]
fn equality_looks_at_every_part() {
    let base = Header::new(TraceId::Rendered("t".into()));
    assert_eq!(base, Header::new(TraceId::Rendered("t".into())));
    assert_ne!(base, Header::new(TraceId::Rendered("u".into())));
    let mut with_parent = Header::new(TraceId::Rendered("t".into()));
    with_parent.with_parent_id(SegmentId::Rendered("p".into()));
    assert_ne!(base, with_parent);
    let mut sampled = Header::new(TraceId::Rendered("t".into()));
    sampled.with_sampling_decision(SamplingDecision::Sampled);
    assert_ne!(base, sampled);
}

#[test]
fn header_name() {
    assert_eq!(Header::NAME, "X-Amzn-Trace-Id");
}

#[test]
fn sampling_decision_codes() {
    assert_eq!(SamplingDecision::Sampled.to_string(), "Sampled=1");
    assert_eq!(SamplingDecision::NotSampled.to_string(), "Sampled=0");
    assert_eq!(SamplingDecision::Requested.to_string(), "Sampled=?");
    assert_eq!(SamplingDecision::Unknown.to_string(), "");
    assert_eq!(SamplingDecision::Requested.as_str(), "Sampled=?");
}

#[test]
fn sampling_decision_from_code() {
    assert_eq!(SamplingDecision::from("Sampled=1"), SamplingDecision::Sampled);
    assert_eq!(SamplingDecision::from("Sampled=0"), SamplingDecision::NotSampled);
    assert_eq!(SamplingDecision::from("Sampled=?"), SamplingDecision::Requested);
    assert_eq!(SamplingDecision::from(""), SamplingDecision::Unknown);
    assert_eq!(SamplingDecision::from("Sampled=2"), SamplingDecision::Unknown);
    assert_eq!(SamplingDecision::from("sampled=1"), SamplingDecision::Unknown);
    assert_eq!(SamplingDecision::from("Sampled=1 "), SamplingDecision::Unknown);
    assert_eq!(SamplingDecision::from("1"), SamplingDecision::Unknown);
}

#[test]
fn sampling_decision_codes_read_back() {
    for decision in [
        SamplingDecision::Sampled,
        SamplingDecision::NotSampled,
        SamplingDecision::Requested,
        SamplingDecision::Unknown,
    ] {
        assert_eq!(SamplingDecision::from(decision.as_str()), decision);
    }
}

#[test]
fn sampling_decision_default_is_unknown() {
    assert_eq!(SamplingDecision::default(), SamplingDecision::Unknown);
}
