//! Conditional writes: whether `If-Match` and `If-None-Match` let an upload go
//! on.

use vstd::prelude::*;

use crate::set_disks::SetDisks;

verus! {

/// Why an object operation fails.
#[derive(Debug)]
pub enum StorageError {
    /// The object's state does not meet the conditions of the request.
    PreconditionFailed,
    /// There is no such object in the bucket.
    ObjectNotFound(String, String),
    /// There is no such version of the object in the bucket.
    VersionNotFound(String, String, String),
    /// Too few disks agree for a read.
    ErasureReadQuorum,
    /// Any other error of the storage layer, by its code.
    Other(u32),
}

/// The conditions that a request sets.
#[derive(Debug)]
pub struct HttpPreconditions {
    pub if_match: Option<String>,
    pub if_none_match: Option<String>,
}

/// The options of an object operation. What has nothing to do with conditions
/// is the `rest`.
#[derive(Debug)]
pub struct ObjectOptions<R> {
    /// Whether the operation must not take the object's lock.
    pub no_lock: bool,
    /// The conditions of the request, where it sets any.
    pub http_preconditions: Option<HttpPreconditions>,
    /// All other options.
    pub rest: R,
}

/// How the test of the conditions begins.
#[derive(Debug)]
pub enum PreconditionStart<R> {
    /// The write may go on.
    Pass,
    /// Look the object up with these options first.
    LookUp { opts: ObjectOptions<R>, conditions: HttpPreconditions },
}

/// How the test of the conditions goes on after the lookup.
#[derive(Debug)]
pub enum PreconditionStep {
    /// The write may go on.
    Pass,
    /// The write is refused.
    Refuse(StorageError),
    /// Compare the object that is there with these conditions.
    Compare { if_none_match: Option<String>, if_match: Option<String> },
}

/// Whether an error says that the object is not there.
pub open spec fn is_absent(e: StorageError) -> bool {
    e is VersionNotFound || e is ObjectNotFound || e is ErasureReadQuorum
}

impl SetDisks {
    /// Begins the test. Without conditions the write goes on. Else the object is
    /// looked up with the options of the request, but without its conditions and
    /// without a lock: the caller holds the lock, or wants none.
    pub fn check_write_precondition<R>(opts: ObjectOptions<R>) -> (r: PreconditionStart<R>)
        ensures
            match opts.http_preconditions {
                None => r is Pass,
                Some(c) => r == (PreconditionStart::LookUp {
                    opts: ObjectOptions { no_lock: true, http_preconditions: None, rest: opts.rest },
                    conditions: c,
                }),
            },
    {
        match opts.http_preconditions {
            None => PreconditionStart::Pass,
            Some(conditions) => PreconditionStart::LookUp {
                opts: ObjectOptions { no_lock: true, http_preconditions: None, rest: opts.rest },
                conditions,
            },
        }
    }

    /// Goes on with what the lookup gave: whether the object's top version is a
    /// delete marker, or an error. A delete marker lets the write go on. An
    /// object that is not there is in the way of `If-Match` only, and any other
    /// error is handed on.
    pub fn precondition_looked_up(
        bucket: &str,
        object: &str,
        conditions: HttpPreconditions,
        delete_marker: Result<bool, StorageError>,
    ) -> (r: PreconditionStep)
        ensures
            match delete_marker {
                Ok(true) => r is Pass,
                Ok(false) => r == (PreconditionStep::Compare {
                    if_none_match: conditions.if_none_match,
                    if_match: conditions.if_match,
                }),
                Err(e) => if !is_absent(e) {
                    r == PreconditionStep::Refuse(e)
                } else if conditions.if_match is Some {
                    r matches PreconditionStep::Refuse(StorageError::ObjectNotFound(b, o)) && b@
                        == bucket@ && o@ == object@
                } else {
                    r is Pass
                },
            },
    {
        match delete_marker {
            Ok(true) => PreconditionStep::Pass,
            Ok(false) => PreconditionStep::Compare {
                if_none_match: conditions.if_none_match,
                if_match: conditions.if_match,
            },
            Err(StorageError::VersionNotFound(_, _, _))
            | Err(StorageError::ObjectNotFound(_, _))
            | Err(StorageError::ErasureReadQuorum) => {
                if conditions.if_match.is_some() {
                    PreconditionStep::Refuse(
                        StorageError::ObjectNotFound(bucket.to_owned(), object.to_owned()),
                    )
                } else {
                    PreconditionStep::Pass
                }
            },
            Err(e) => PreconditionStep::Refuse(e),
        }
    }

    /// Ends the test with what the comparison said: whether the object stands in
    /// the way of the write.
    pub fn precondition_compared(prevents_write: bool) -> (r: Option<StorageError>)
        ensures
            r == if prevents_write {
                Some(StorageError::PreconditionFailed)
            } else {
                None
            },
    {
        if prevents_write {
            Some(StorageError::PreconditionFailed)
        } else {
            None
        }
    }
}

/// An object counts as absent where it, or the version asked for, is not found,
/// or where too few disks agree for a read; no other error says so.
pub proof fn law_absence_is_told_by_the_error(a: String, b: String, c: String, code: u32)
    ensures
        is_absent(StorageError::ObjectNotFound(a, b)),
        is_absent(StorageError::VersionNotFound(a, b, c)),
        is_absent(StorageError::ErasureReadQuorum),
        !is_absent(StorageError::PreconditionFailed),
        !is_absent(StorageError::Other(code)),
{
}

/// The lookup that a test of conditions begins with neither tests conditions nor
/// takes a lock, and is else as the request is. A request without conditions
/// needs none.
pub proof fn law_lookup_tests_no_conditions<R>(opts: ObjectOptions<R>, r: PreconditionStart<R>)
    requires
        call_ensures(SetDisks::check_write_precondition::<R>, (opts,), r),
    ensures
        r is Pass <==> opts.http_preconditions is None,
        r matches PreconditionStart::LookUp { opts: lookup, conditions } ==> lookup.no_lock
            && lookup.http_preconditions is None && lookup.rest == opts.rest
            && opts.http_preconditions == Some(conditions),
{
}

/// After the lookup: an object that is there is compared with the conditions as
/// they are, a delete marker lets the write go on, and an error either says that
/// there is no object, which only `If-Match` refuses, or is handed on.
pub proof fn law_missing_object_fails_if_match_only(
    bucket: &str,
    object: &str,
    conditions: HttpPreconditions,
    looked_up: Result<bool, StorageError>,
    r: PreconditionStep,
)
    requires
        call_ensures(
            SetDisks::precondition_looked_up,
            (bucket, object, conditions, looked_up),
            r,
        ),
    ensures
        r is Compare <==> looked_up == Ok::<bool, StorageError>(false),
        r matches PreconditionStep::Compare { if_none_match, if_match } ==> if_none_match
            == conditions.if_none_match && if_match == conditions.if_match,
        looked_up == Ok::<bool, StorageError>(true) ==> r is Pass,
        looked_up is Err && conditions.if_match is Some ==> r is Refuse,
        looked_up matches Err(e) ==> ((e is ObjectNotFound || e is VersionNotFound
            || e is ErasureReadQuorum) && conditions.if_match is None <==> r is Pass),
        looked_up matches Err(e) ==> (e is PreconditionFailed || e is Other ==> r
            == PreconditionStep::Refuse(e)),
        looked_up is Err ==> (r matches PreconditionStep::Refuse(
            StorageError::ObjectNotFound(b, o),
        ) ==> b@ == bucket@ && o@ == object@),
        looked_up matches Err(e) ==> ((e is ObjectNotFound || e is VersionNotFound
            || e is ErasureReadQuorum) && conditions.if_match is Some ==> (
        r matches PreconditionStep::Refuse(StorageError::ObjectNotFound(_, _)))),
{
}

/// A comparison that stands in the way of the write refuses it, and no other.
pub proof fn law_comparison_decides(prevents_write: bool, r: Option<StorageError>)
    requires
        call_ensures(SetDisks::precondition_compared, (prevents_write,), r),
    ensures
        r is Some <==> prevents_write,
        r matches Some(e) ==> e is PreconditionFailed,
{
}

}
