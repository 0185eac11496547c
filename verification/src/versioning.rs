//! Where the versioning state of a bucket comes from, and what is answered when
//! it cannot be had.

use s3s::dto::VersioningConfiguration;
use vstd::prelude::*;

use crate::text::{starts_with, to_chars};

verus! {

/// The versioning state of a bucket.
#[derive(Clone, Debug)]
pub struct Versioning {
    /// Whether deleting a version asks for a second factor.
    pub mfa_delete: Option<String>,
    /// Whether versioning is enabled or suspended; none where it never was set.
    pub status: Option<String>,
}

/// How a request for the versioning state of a bucket goes on.
#[derive(Debug)]
pub enum VersioningStep {
    /// This is the state.
    Known(Versioning),
    /// The state stands in the metadata of the bucket.
    LookUp,
}

/// Calls `VersioningConfiguration::default`. The claim is that the default
/// sets neither of the two.
#[verifier::external_body]
fn default_versioning() -> (r: Versioning)
    ensures
        r.mfa_delete is None,
        r.status is None,
{
    let cfg = VersioningConfiguration::default();
    Versioning {
        mfa_delete: cfg.mfa_delete.map(|m| m.as_str().to_string()),
        status: cfg.status.map(|s| s.as_str().to_string()),
    }
}

/// The versioning of buckets.
#[derive(Debug)]
pub struct BucketVersioningSys {}

impl Default for BucketVersioningSys {
    fn default() -> (r: BucketVersioningSys)
        ensures
            r == (BucketVersioningSys {  }),
    {
        BucketVersioningSys::new()
    }
}

impl BucketVersioningSys {
    pub fn new() -> (r: BucketVersioningSys)
        ensures
            r == (BucketVersioningSys {  }),
    {
        BucketVersioningSys {  }
    }

    /// Where the versioning state of a bucket comes from. Buckets whose name
    /// starts with that of the metadata bucket have none; the state of the
    /// others is looked up.
    pub fn get(bucket: &str, meta_bucket: &str) -> (r: VersioningStep)
        ensures
            if meta_bucket@.is_prefix_of(bucket@) {
                r matches VersioningStep::Known(v) && v.mfa_delete is None && v.status is None
            } else {
                r is LookUp
            },
    {
        let name: Vec<char> = to_chars(bucket);
        let prefix: Vec<char> = to_chars(meta_bucket);
        assert(bucket@.skip(0) =~= bucket@);
        if starts_with(&name, 0, &prefix) {
            VersioningStep::Known(default_versioning())
        } else {
            VersioningStep::LookUp
        }
    }

    /// Whether versioning is enabled for a bucket. `state` is what the bucket's
    /// versioning state says, or why it could not be had: then it is not.
    pub fn enabled<E>(state: &Result<bool, E>) -> (r: bool)
        ensures
            r == (*state matches Ok(yes) && yes),
    {
        match state {
            Ok(yes) => *yes,
            Err(_) => false,
        }
    }

    /// Whether versioning is enabled for a prefix of a bucket, in the same way.
    pub fn prefix_enabled<E>(state: &Result<bool, E>) -> (r: bool)
        ensures
            r == (*state matches Ok(yes) && yes),
    {
        match state {
            Ok(yes) => *yes,
            Err(_) => false,
        }
    }

    /// Whether versioning is suspended for a bucket, in the same way.
    pub fn suspended<E>(state: &Result<bool, E>) -> (r: bool)
        ensures
            r == (*state matches Ok(yes) && yes),
    {
        match state {
            Ok(yes) => *yes,
            Err(_) => false,
        }
    }

    /// Whether versioning is suspended for a prefix of a bucket, in the same
    /// way.
    pub fn prefix_suspended<E>(state: &Result<bool, E>) -> (r: bool)
        ensures
            r == (*state matches Ok(yes) && yes),
    {
        match state {
            Ok(yes) => *yes,
            Err(_) => false,
        }
    }
}

/// A state that could not be had says neither that versioning is enabled nor that
/// it is suspended; one that could is answered as it is.
pub proof fn law_unknown_state_is_answered_no<E>(
    state: &Result<bool, E>,
    enabled: bool,
    prefix_enabled: bool,
    suspended: bool,
    prefix_suspended: bool,
)
    requires
        call_ensures(BucketVersioningSys::enabled::<E>, (state,), enabled),
        call_ensures(BucketVersioningSys::prefix_enabled::<E>, (state,), prefix_enabled),
        call_ensures(BucketVersioningSys::suspended::<E>, (state,), suspended),
        call_ensures(BucketVersioningSys::prefix_suspended::<E>, (state,), prefix_suspended),
    ensures
        *state is Err ==> !enabled && !prefix_enabled && !suspended && !prefix_suspended,
        *state matches Ok(yes) ==> enabled == yes && prefix_enabled == yes && suspended == yes
            && prefix_suspended == yes,
{
}

/// The state of a bucket is looked up unless its name begins with that of the
/// metadata bucket; such a bucket has no versioning.
pub proof fn law_metadata_buckets_have_no_versioning(
    bucket: &str,
    meta_bucket: &str,
    r: VersioningStep,
)
    requires
        call_ensures(BucketVersioningSys::get, (bucket, meta_bucket), r),
    ensures
        r is Known <==> exists|rest: Seq<char>| #[trigger] (meta_bucket@ + rest) == bucket@,
        r matches VersioningStep::Known(v) ==> v.mfa_delete is None && v.status is None,
{
    let prefix = meta_bucket@;
    if prefix.is_prefix_of(bucket@) {
        let rest = bucket@.skip(prefix.len() as int);
        assert(prefix + rest =~= bucket@);
    }
    if exists|rest: Seq<char>| #[trigger] (prefix + rest) == bucket@ {
        let rest = choose|rest: Seq<char>| #[trigger] (prefix + rest) == bucket@;
        assert(bucket@.subrange(0, prefix.len() as int) =~= prefix);
    }
}

}
