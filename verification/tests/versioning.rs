use rustfs_core::versioning::{BucketVersioningSys, VersioningStep};

const META: &str = ".rustfs.sys";

#[test]
fn metadata_buckets_have_no_versioning() {
    for bucket in [META, ".rustfs.sys/tmp", ".rustfs.system"] {
        match BucketVersioningSys::get(bucket, META) {
            VersioningStep::Known(v) => {
                assert!(v.status.is_none());
                assert!(v.mfa_delete.is_none());
            }
            VersioningStep::LookUp => panic!("{bucket} is a metadata bucket"),
        }
    }
}

#[test]
fn other_buckets_are_looked_up() {
    for bucket in ["test-bucket", "", ".rustfs.sy", "a.rustfs.sys"] {
        assert!(matches!(BucketVersioningSys::get(bucket, META), VersioningStep::LookUp));
    }
}

#[test]
fn failed_lookup_means_no() {
    let yes: Result<bool, &str> = Ok(true);
    let no: Result<bool, &str> = Ok(false);
    let failed: Result<bool, &str> = Err("gone");
    for (state, expected) in [(yes, true), (no, false), (failed, false)] {
        assert_eq!(BucketVersioningSys::enabled(&state), expected);
        assert_eq!(BucketVersioningSys::prefix_enabled(&state), expected);
        assert_eq!(BucketVersioningSys::suspended(&state), expected);
        assert_eq!(BucketVersioningSys::prefix_suspended(&state), expected);
    }
}

#[test]
fn versioning_sys_is_made_by_default() {
    let BucketVersioningSys {} = BucketVersioningSys::new();
    let BucketVersioningSys {} = BucketVersioningSys::default();
}
