use rustfs_core::bucket_setup::setup_test_bucket;

fn refused(text: &str) -> Result<(), String> {
    setup_test_bucket(Err(text.to_string()))
}

#[test]
fn bucket_that_is_there_is_no_failure() {
    assert_eq!(setup_test_bucket(Ok(())), Ok(()));
    assert_eq!(refused("service error: BucketAlreadyOwnedByYou (409)"), Ok(()));
    assert_eq!(refused("BucketAlreadyExists"), Ok(()));
}

#[test]
fn other_refusals_are_handed_on() {
    for text in ["", "AccessDenied", "BucketAlready", "bucketalreadyexists"] {
        assert_eq!(refused(text), Err(text.to_string()));
    }
}
