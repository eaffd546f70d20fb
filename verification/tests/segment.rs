use xray_tracing::ids::{SegmentId, TraceId};
use xray_tracing::segment::{truncate_name, Annotation, Segment, MAX_NAME_LEN};
use xray_tracing::time::Seconds;

#[test]
fn long_name_is_cut_to_200_characters() {
    let segment = Segment::begin("x".repeat(250));
    assert_eq!(segment.name.len(), 200);
    assert_eq!(segment.name, "x".repeat(200));
}

#[test]
fn name_within_the_limit_is_kept() {
    assert_eq!(Segment::begin("service".to_string()).name, "service");
    assert_eq!(Segment::begin(String::new()).name, "");
    assert_eq!(Segment::begin("y".repeat(200)).name, "y".repeat(200));
    assert_eq!(Segment::begin("y".repeat(201)).name, "y".repeat(200));
    assert_eq!(Segment::begin("y".repeat(199)).name, "y".repeat(199));
}

#[test]
fn names_are_cut_between_characters() {
    let name = "é".repeat(250);
    let segment = Segment::begin(name);
    assert_eq!(segment.name.chars().count(), 200);
    assert_eq!(segment.name, "é".repeat(200));
    let mixed = format!("{}{}", "a".repeat(199), "😀😀");
    assert_eq!(truncate_name(mixed), format!("{}{}", "a".repeat(199), "😀"));
    assert_eq!(MAX_NAME_LEN, 200);
}

#[test]
fn a_segment_begins_in_progress() {
    let segment = Segment::begin("service".to_string());
    assert!(segment.in_progress);
    assert_eq!(segment.end_time, None);
    assert!(segment.parent_id.is_none());
    assert!(!segment.fault);
    assert!(!segment.error);
    assert!(!segment.throttle);
    assert!(segment.cause.is_none());
    assert!(segment.origin.is_none());
    assert!(segment.user.is_none());
    assert!(segment.resource_arn.is_none());
    assert!(segment.annotations.is_none());
    assert!(segment.metadata.is_none());
    assert!(segment.aws.is_none());
    assert!(segment.service.is_none());
}

#[test]
fn a_segment_begins_with_generated_ids_at_the_current_time() {
    let segment = Segment::begin("service".to_string());
    assert!(matches!(segment.trace_id, TraceId::New(_, _)));
    assert!(matches!(segment.id, SegmentId::New(_)));
    assert_eq!(segment.id.to_string().len(), 16);
    assert_eq!(segment.trace_id.to_string().len(), 35);
    assert!(segment.start_time.trunc() > 1_600_000_000);
}

#[test]
fn an_ended_segment_is_not_in_progress() {
    let mut segment = Segment::begin("service".to_string());
    let started = segment.start_time;
    segment.fault = true;
    segment.end();
    assert!(!segment.in_progress);
    let ended = segment.end_time.expect("an end time");
    assert!(ended.trunc() >= started.trunc());
    assert!(segment.fault);
    assert_eq!(segment.name, "service");
    assert_eq!(segment.start_time, started);
}

#[test]
fn ending_twice_keeps_the_later_time() {
    let mut segment = Segment::begin("service".to_string());
    let first = Seconds::from_parts(10, 5).expect("a valid time");
    let second = Seconds::from_parts(20, 6).expect("a valid time");
    segment.end_at(first);
    assert_eq!(segment.end_time, Some(first));
    assert!(!segment.in_progress);
    segment.end_at(second).error = true;
    assert_eq!(segment.end_time, Some(second));
    assert!(!segment.in_progress);
    assert!(segment.error);
    segment.end();
    assert!(!segment.in_progress);
    assert!(segment.end_time.expect("an end time").trunc() > 20);
}

#[test]
fn begin_with_takes_what_it_is_given() {
    let start = Seconds::from_parts(1_545_136_342, 711_932_000).expect("a valid time");
    let segment = Segment::begin_with(
        "n".repeat(300),
        TraceId::Rendered("1-5759e988-bd862e3fe1be46a994272793".into()),
        SegmentId::Rendered("53995c3f42cd8ad8".into()),
        start,
    );
    assert_eq!(segment.trace_id.to_string(), "1-5759e988-bd862e3fe1be46a994272793");
    assert_eq!(segment.id.to_string(), "53995c3f42cd8ad8");
    assert_eq!(segment.name, "n".repeat(200));
    assert_eq!(segment.start_time, start);
    assert!(segment.in_progress);
    assert_eq!(segment.end_time, None);
}

#[test]
fn default_segment_begins_without_a_name() {
    let segment = Segment::default();
    assert_eq!(segment.name, "");
    assert!(segment.in_progress);
    assert_eq!(segment.end_time, None);
}

#[test]
fn default_annotation_is_the_empty_string() {
    assert!(matches!(Annotation::default(), Annotation::String(text) if text.is_empty()));
}
