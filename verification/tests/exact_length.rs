use rustfs_core::exact_length::{EndedEarly, ExactLengthReader};

#[test]
fn full_body_passes() {
    let mut reader = ExactLengthReader::new("stream", 10);
    assert_eq!(reader.inner, "stream");
    assert_eq!(reader.poll_read(4), Ok(()));
    assert_eq!(reader.poll_read(6), Ok(()));
    assert_eq!(reader.poll_read(0), Ok(()));
    assert_eq!(reader.read_so_far, 10);
    assert_eq!(reader.expected, 10);
}

#[test]
fn longer_body_passes() {
    let mut reader = ExactLengthReader::new((), 3);
    assert_eq!(reader.poll_read(8), Ok(()));
    assert_eq!(reader.poll_read(0), Ok(()));
}

#[test]
fn short_body_fails_at_its_end() {
    let mut reader = ExactLengthReader::new((), 10);
    assert_eq!(reader.poll_read(4), Ok(()));
    let err = EndedEarly { expected: 10, read_so_far: 4 };
    assert_eq!(reader.poll_read(0), Err(err));
    assert_eq!(err.message(), "decryption stream ended early: expected 10 bytes, got 4");
    // The stream stays ended.
    assert_eq!(reader.poll_read(0), Err(err));
}

#[test]
fn nothing_expected_means_no_failure() {
    let mut reader = ExactLengthReader::new((), 0);
    assert_eq!(reader.poll_read(0), Ok(()));
    let mut unknown = ExactLengthReader::new((), -1);
    assert_eq!(unknown.poll_read(0), Ok(()));
}
