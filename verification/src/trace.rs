//! Spans around the phases of a request. Which span is opened is decided here;
//! whether spans are wanted at all is a setting of the process.

use vstd::prelude::*;

verus! {

/// The setting that turns these spans on; they are off without it.
pub const ENV_TRACE_S3_HANDLING_ENABLED: &'static str = "RUSTFS_TRACE_S3_HANDLING_ENABLED";

/// The target of spans around the phases of an upload.
pub const PUT_TRACE_TARGET: &'static str = "rustfs_put_trace";

/// The target of spans around a whole request.
pub const S3_TRACE_TARGET: &'static str = "rustfs_s3_trace";

/// A span to open under the current one.
#[derive(Debug)]
pub struct PhaseSpan {
    pub target: &'static str,
    pub name: &'static str,
    pub phase: String,
    pub bucket: String,
    pub object: String,
    /// The lock that the phase belongs to, where it is told.
    pub trace_id: Option<String>,
}

/// A span to open around the handling of one operation.
#[derive(Debug)]
pub struct HandlingSpan {
    pub target: &'static str,
    pub name: &'static str,
    pub operation: String,
}

/// Whether `r` is the span with this name for this phase of an upload.
pub open spec fn is_phase_span(
    r: PhaseSpan,
    name: Seq<char>,
    phase: Seq<char>,
    bucket: Seq<char>,
    object: Seq<char>,
) -> bool {
    r.target@ == PUT_TRACE_TARGET@ && r.name@ == name && r.phase@ == phase && r.bucket@ == bucket
        && r.object@ == object
}

/// The span around a phase of an upload, where spans are wanted.
pub fn put_phase_span(enabled: bool, phase: &str, bucket: &str, object: &str) -> (r: Option<
    PhaseSpan,
>)
    ensures
        r is Some <==> enabled,
        r matches Some(span) ==> is_phase_span(
            span,
            "put_object.phase"@,
            phase@,
            bucket@,
            object@,
        ) && span.trace_id is None,
{
    if !enabled {
        return None;
    }
    Some(
        PhaseSpan {
            target: PUT_TRACE_TARGET,
            name: "put_object.phase",
            phase: phase.to_owned(),
            bucket: bucket.to_owned(),
            object: object.to_owned(),
            trace_id: None,
        },
    )
}

/// The span around a step of the storage of an upload, where spans are wanted.
pub fn span_put_phase(enabled: bool, phase: &str, bucket: &str, object: &str) -> (r: Option<
    PhaseSpan,
>)
    ensures
        r is Some <==> enabled,
        r matches Some(span) ==> is_phase_span(
            span,
            "put_object.trace"@,
            phase@,
            bucket@,
            object@,
        ) && span.trace_id is None,
{
    if !enabled {
        return None;
    }
    Some(
        PhaseSpan {
            target: PUT_TRACE_TARGET,
            name: "put_object.trace",
            phase: phase.to_owned(),
            bucket: bucket.to_owned(),
            object: object.to_owned(),
            trace_id: None,
        },
    )
}

/// The same span, with the lock that the step belongs to.
pub fn span_put_phase_trace(
    enabled: bool,
    phase: &str,
    bucket: &str,
    object: &str,
    trace_id: &str,
) -> (r: Option<PhaseSpan>)
    ensures
        r is Some <==> enabled,
        r matches Some(span) ==> is_phase_span(
            span,
            "put_object.trace"@,
            phase@,
            bucket@,
            object@,
        ) && (span.trace_id matches Some(id) && id@ == trace_id@),
{
    match span_put_phase(enabled, phase, bucket, object) {
        Some(span) => Some(PhaseSpan { trace_id: Some(trace_id.to_owned()), ..span }),
        None => None,
    }
}

/// The span around the handling of one operation, where spans are wanted.
pub fn with_s3_handling_span(enabled: bool, operation: &str) -> (r: Option<HandlingSpan>)
    ensures
        r is Some <==> enabled,
        r matches Some(span) ==> span.target@ == S3_TRACE_TARGET@ && span.name@ == "s3.handling"@
            && span.operation@ == operation@,
        r matches Some(span) ==> span.target@ == "rustfs_s3_trace"@,
{
    if !enabled {
        return None;
    }
    Some(
        HandlingSpan {
            target: S3_TRACE_TARGET,
            name: "s3.handling",
            operation: operation.to_owned(),
        },
    )
}

/// A span tells its phase, bucket and object as they were given, under the
/// target of uploads; the targets and the setting have these names.
pub proof fn law_span_tells_what_it_is_about(
    r: PhaseSpan,
    name: Seq<char>,
    phase: Seq<char>,
    bucket: Seq<char>,
    object: Seq<char>,
)
    ensures
        is_phase_span(r, name, phase, bucket, object) <==> {
            &&& r.target@ == "rustfs_put_trace"@
            &&& r.name@ == name
            &&& r.phase@ == phase
            &&& r.bucket@ == bucket
            &&& r.object@ == object
        },
        S3_TRACE_TARGET@ == "rustfs_s3_trace"@,
        ENV_TRACE_S3_HANDLING_ENABLED@ == "RUSTFS_TRACE_S3_HANDLING_ENABLED"@,
{
}

/// A span is opened exactly where spans are wanted, and names what it was given;
/// only the one with a lock names that.
pub proof fn law_spans_are_opened_where_wanted(
    enabled: bool,
    phase: &str,
    bucket: &str,
    object: &str,
    trace_id: &str,
    outer: Option<PhaseSpan>,
    inner: Option<PhaseSpan>,
    locked: Option<PhaseSpan>,
    operation: &str,
    handling: Option<HandlingSpan>,
)
    requires
        call_ensures(put_phase_span, (enabled, phase, bucket, object), outer),
        call_ensures(span_put_phase, (enabled, phase, bucket, object), inner),
        call_ensures(span_put_phase_trace, (enabled, phase, bucket, object, trace_id), locked),
        call_ensures(with_s3_handling_span, (enabled, operation), handling),
    ensures
        outer is Some <==> enabled,
        inner is Some <==> enabled,
        locked is Some <==> enabled,
        handling is Some <==> enabled,
        outer matches Some(s) ==> s.name@ == "put_object.phase"@ && s.phase@ == phase@ && s.bucket@
            == bucket@ && s.object@ == object@ && s.trace_id is None,
        inner matches Some(s) ==> s.name@ == "put_object.trace"@ && s.phase@ == phase@ && s.bucket@
            == bucket@ && s.object@ == object@ && s.trace_id is None,
        locked matches Some(s) ==> s.name@ == "put_object.trace"@ && s.phase@ == phase@
            && s.bucket@ == bucket@ && s.object@ == object@ && (s.trace_id matches Some(id) && id@
            == trace_id@),
        handling matches Some(s) ==> s.target@ == "rustfs_s3_trace"@ && s.name@ == "s3.handling"@
            && s.operation@ == operation@,
{
}

}
