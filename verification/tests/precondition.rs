use rustfs_core::precondition::{HttpPreconditions, ObjectOptions, PreconditionStart, PreconditionStep, StorageError};
use rustfs_core::set_disks::SetDisks;

fn conditions(if_match: Option<&str>, if_none_match: Option<&str>) -> HttpPreconditions {
    HttpPreconditions {
        if_match: if_match.map(str::to_owned),
        if_none_match: if_none_match.map(str::to_owned),
    }
}

fn looked_up(c: HttpPreconditions, found: Result<bool, StorageError>) -> PreconditionStep {
    SetDisks::precondition_looked_up("bucket", "object", c, found)
}

fn absences() -> Vec<StorageError> {
    vec![
        StorageError::VersionNotFound("b".to_string(), "o".to_string(), "v".to_string()),
        StorageError::ObjectNotFound("b".to_string(), "o".to_string()),
        StorageError::ErasureReadQuorum,
    ]
}

#[test]
fn no_conditions_pass() {
    let opts = ObjectOptions { no_lock: false, http_preconditions: None, rest: () };
    assert!(matches!(SetDisks::check_write_precondition(opts), PreconditionStart::Pass));
}

#[test]
fn lookup_takes_no_lock_and_keeps_the_other_options() {
    for no_lock in [false, true] {
        let opts = ObjectOptions { no_lock, http_preconditions: Some(conditions(Some("x"), None)), rest: "v-1" };
        match SetDisks::check_write_precondition(opts) {
            PreconditionStart::LookUp { opts, conditions } => {
                assert!(opts.no_lock);
                assert!(opts.http_preconditions.is_none());
                assert_eq!(opts.rest, "v-1");
                assert_eq!(conditions.if_match.as_deref(), Some("x"));
                assert_eq!(conditions.if_none_match, None);
            }
            PreconditionStart::Pass => panic!("there are conditions"),
        }
    }
}

#[test]
fn delete_marker_passes() {
    assert!(matches!(looked_up(conditions(Some("x"), Some("*")), Ok(true)), PreconditionStep::Pass));
}

#[test]
fn object_that_is_there_is_compared() {
    match looked_up(conditions(Some("x"), Some("*")), Ok(false)) {
        PreconditionStep::Compare { if_none_match, if_match } => {
            assert_eq!(if_none_match.as_deref(), Some("*"));
            assert_eq!(if_match.as_deref(), Some("x"));
        }
        _ => panic!("the object is there"),
    }
    assert!(SetDisks::precondition_compared(false).is_none());
    assert!(matches!(SetDisks::precondition_compared(true), Some(StorageError::PreconditionFailed)));
}

#[test]
fn missing_object_is_in_the_way_of_if_match_only() {
    for e in absences() {
        assert!(matches!(looked_up(conditions(None, Some("*")), Err(e)), PreconditionStep::Pass));
    }
    for e in absences() {
        match looked_up(conditions(Some("x"), None), Err(e)) {
            PreconditionStep::Refuse(StorageError::ObjectNotFound(b, o)) => {
                assert_eq!(b, "bucket");
                assert_eq!(o, "object");
            }
            _ => panic!("the object has to match"),
        }
    }
}

#[test]
fn other_errors_are_handed_on() {
    let step = looked_up(conditions(None, Some("*")), Err(StorageError::Other(3)));
    assert!(matches!(step, PreconditionStep::Refuse(StorageError::Other(3))));
    let step = looked_up(conditions(None, None), Err(StorageError::PreconditionFailed));
    assert!(matches!(step, PreconditionStep::Refuse(StorageError::PreconditionFailed)));
}
