use s3mmap::codes::{errstr, failure_code, MMAP_S3_INVALID_S3URL, MMAP_S3_NOT_FOUND, MMAP_S3_UNKNOWN};
use s3mmap::s3::{check_body, split_s3_url, MMapS3State, S3Failure};

#[test]
fn split_plain_url() {
    assert_eq!(
        split_s3_url("s3://bucket/key"),
        Some(("bucket".to_string(), "key".to_string()))
    );
}

#[test]
fn split_key_with_slashes() {
    assert_eq!(
        split_s3_url("s3://b/dir/sub/file.bin"),
        Some(("b".to_string(), "dir/sub/file.bin".to_string()))
    );
}

#[test]
fn split_rejects_malformed() {
    assert_eq!(split_s3_url("s3://bucket"), None);
    assert_eq!(split_s3_url("s3://bucket/"), None);
    assert_eq!(split_s3_url("s3:///key"), None);
    assert_eq!(split_s3_url("http://bucket/key"), None);
    assert_eq!(split_s3_url("s3://bucket/ke\ny"), None);
    assert_eq!(split_s3_url(""), None);
}

#[test]
fn failure_from_status() {
    assert_eq!(S3Failure::from_status(403), S3Failure::S3PermissionError);
    assert_eq!(S3Failure::from_status(404), S3Failure::S3NotFound);
    assert_eq!(S3Failure::from_status(500), S3Failure::Unknown);
}

#[test]
fn body_checks() {
    assert_eq!(check_body(3, None), Err(S3Failure::NoBodyReturned));
    assert_eq!(check_body(3, Some(vec![1, 2])), Err(S3Failure::PartialRead));
    assert_eq!(check_body(2, Some(vec![1, 2])), Ok(vec![1, 2]));
}

#[test]
fn state_sizes() {
    let st = MMapS3State::new("b".to_string(), "k".to_string(), Some(0)).unwrap();
    assert_eq!(st.object_size(), 0);
    assert_eq!(st.bucket_name(), "b");
    assert_eq!(st.key_name(), "k");
    let st = MMapS3State::new("b".to_string(), "k".to_string(), Some(12345)).unwrap();
    assert_eq!(st.object_size(), 12345);
    assert!(matches!(
        MMapS3State::new("b".to_string(), "k".to_string(), None),
        Err(S3Failure::ContentLengthNotReturned)
    ));
    assert!(matches!(
        MMapS3State::new("b".to_string(), "k".to_string(), Some(-1)),
        Err(S3Failure::Unknown)
    ));
}

#[test]
fn plan_caps_at_object_end() {
    let mut st = MMapS3State::new("b".to_string(), "k".to_string(), Some(5000)).unwrap();
    assert_eq!(st.plan_fault(4096), (904, 4096));
    assert_eq!(st.plan_fault(0), (4096, 4096));
}

#[test]
fn record_then_plan_reads_ahead() {
    let mut st =
        MMapS3State::new("b".to_string(), "k".to_string(), Some(4096 * 2000)).unwrap();
    assert!(st.record_fault(0, 63 * 4096).is_empty());
    assert_eq!(st.plan_fault(63 * 4096), (1024 * 4096, 1024 * 4096));
}

#[test]
fn codes_and_names() {
    assert_eq!(failure_code(&S3Failure::InvalidS3Url), MMAP_S3_INVALID_S3URL);
    assert_eq!(failure_code(&S3Failure::S3NotFound), MMAP_S3_NOT_FOUND);
    assert_eq!(failure_code(&S3Failure::PartialRead), MMAP_S3_UNKNOWN);
    assert_eq!(failure_code(&S3Failure::ParseRegionError), MMAP_S3_UNKNOWN);
    assert_eq!(errstr(0), "MMAP_S3_OK");
    assert_eq!(errstr(3), "MMAP_S3_CONTENT_LENGTH_NOT_RETURNED");
    assert_eq!(errstr(7), "MMAP_S3_INVALID_S3URL");
    assert_eq!(errstr(99), "MMAP_S3_UNKNOWN");
}
