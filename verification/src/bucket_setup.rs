//! Making a bucket that may be there already.

use vstd::prelude::*;

use crate::text::contains;

verus! {

/// What the refusal of a bucket says where the caller owns it already.
pub const BUCKET_ALREADY_OWNED: &'static str = "BucketAlreadyOwnedByYou";

/// What the refusal of a bucket says where it exists already.
pub const BUCKET_ALREADY_EXISTS: &'static str = "BucketAlreadyExists";

/// Whether the text of a refusal says that the bucket is there already.
pub open spec fn already_there(text: Seq<char>) -> bool {
    crate::text::occurs_in(BUCKET_ALREADY_OWNED@, text) || crate::text::occurs_in(
        BUCKET_ALREADY_EXISTS@,
        text,
    )
}

/// What comes of making a bucket: a refusal, given as its text, is handed on
/// unless the bucket is there already.
pub fn setup_test_bucket(created: Result<(), String>) -> (r: Result<(), String>)
    ensures
        match created {
            Ok(_) => r is Ok,
            Err(text) => if already_there(text@) {
                r is Ok
            } else {
                r == created
            },
        },
{
    match created {
        Ok(_) => Ok(()),
        Err(text) => {
            if !contains(text.as_str(), BUCKET_ALREADY_OWNED) && !contains(
                text.as_str(),
                BUCKET_ALREADY_EXISTS,
            ) {
                Err(text)
            } else {
                Ok(())
            }
        },
    }
}

/// A bucket counts as being there exactly where the refusal says, at any place,
/// that the caller owns it already or that it exists already.
pub proof fn law_refusal_says_that_it_is_there(text: Seq<char>)
    ensures
        already_there(text) <==> (exists|before: Seq<char>, after: Seq<char>| #[trigger]
            (before + "BucketAlreadyOwnedByYou"@ + after) == text) || (exists|
            before: Seq<char>,
            after: Seq<char>,
        | #[trigger] (before + "BucketAlreadyExists"@ + after) == text),
{
    crate::text::law_text_occurs_between_others("BucketAlreadyOwnedByYou"@, text);
    crate::text::law_text_occurs_between_others("BucketAlreadyExists"@, text);
}

/// Setting a bucket up succeeds exactly where it was made or is there already,
/// and else hands the refusal on as it came.
pub proof fn law_setup_fails_only_for_want_of_a_bucket(
    created: Result<(), String>,
    r: Result<(), String>,
)
    requires
        call_ensures(setup_test_bucket, (created,), r),
    ensures
        created is Ok ==> r is Ok,
        created matches Err(text) ==> (r is Ok <==> already_there(text@)),
        r matches Err(text) ==> created == Err::<(), String>(text),
{
}

}
