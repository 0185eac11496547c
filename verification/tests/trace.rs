use rustfs_core::trace::{
    put_phase_span, span_put_phase, span_put_phase_trace, with_s3_handling_span, ENV_TRACE_S3_HANDLING_ENABLED,
};

#[test]
fn spans_are_off_unless_wanted() {
    assert_eq!(ENV_TRACE_S3_HANDLING_ENABLED, "RUSTFS_TRACE_S3_HANDLING_ENABLED");
    assert!(put_phase_span(false, "p", "b", "o").is_none());
    assert!(span_put_phase(false, "p", "b", "o").is_none());
    assert!(span_put_phase_trace(false, "p", "b", "o", "t").is_none());
    assert!(with_s3_handling_span(false, "PutObject").is_none());
}

#[test]
fn phase_spans_say_what_they_are_about() {
    let phase = put_phase_span(true, "encode", "bucket", "object").unwrap();
    assert_eq!((phase.target, phase.name), ("rustfs_put_trace", "put_object.phase"));
    assert_eq!((phase.phase.as_str(), phase.bucket.as_str(), phase.object.as_str()), ("encode", "bucket", "object"));
    assert!(phase.trace_id.is_none());

    let step = span_put_phase(true, "lock", "bucket", "object").unwrap();
    assert_eq!((step.target, step.name), ("rustfs_put_trace", "put_object.trace"));
    assert!(step.trace_id.is_none());

    let traced = span_put_phase_trace(true, "lock", "bucket", "object", "t-1").unwrap();
    assert_eq!((traced.target, traced.name, traced.phase.as_str()), ("rustfs_put_trace", "put_object.trace", "lock"));
    assert_eq!((traced.bucket.as_str(), traced.object.as_str()), ("bucket", "object"));
    assert_eq!(traced.trace_id.as_deref(), Some("t-1"));
}

#[test]
fn handling_span_names_the_operation() {
    let span = with_s3_handling_span(true, "GetObject").unwrap();
    assert_eq!((span.target, span.name, span.operation.as_str()), ("rustfs_s3_trace", "s3.handling", "GetObject"));
}
