use s3_endpoint::admission::{admission_result, AdmissionControl};
use s3_endpoint::config::UploadLimits;
use s3_endpoint::http::HeaderMap;
use s3_endpoint::s3::types::RequestId;

fn control(limits: UploadLimits) -> AdmissionControl {
    AdmissionControl::new(&limits.validated().expect("limits"))
}

#[test]
fn s3_request_admission_rejects_when_limit_is_exhausted() {
    let limits = UploadLimits::default();
    let state = control(limits);
    let permits = (0..limits.max_concurrent_s3_requests)
        .map(|_| state.try_acquire_s3_request().expect("permit"))
        .collect::<Vec<_>>();

    let error = state
        .try_acquire_s3_request()
        .expect_err("S3 request limit should reject");
    let response = error.into_response_with_request_id(&RequestId::new());
    assert_eq!(response.status, 503);
    assert!(response.body.contains("<Code>SlowDown</Code>"));
    assert!(response.body.contains("too many active S3 requests"));

    drop(permits);
    let _permit = state
        .try_acquire_s3_request()
        .expect("permit released after drop");
}

#[test]
fn object_writer_admission_rejects_when_limit_is_exhausted() {
    let limits = UploadLimits::default();
    let state = control(limits);
    let permits = (0..limits.max_active_object_writers)
        .map(|_| state.try_acquire_object_writer().expect("permit"))
        .collect::<Vec<_>>();

    let error = state
        .try_acquire_object_writer()
        .expect_err("object writer limit should reject");
    let response = error.into_response_with_request_id(&RequestId::new());
    assert_eq!(response.status, 503);

    drop(permits);
    let _permit = state
        .try_acquire_object_writer()
        .expect("permit released after drop");
}

#[test]
fn multipart_part_writer_admission_rejects_when_limit_is_exhausted() {
    let limits = UploadLimits::default();
    let state = control(limits);
    let permits = (0..limits.max_active_multipart_part_writers)
        .map(|_| state.try_acquire_multipart_part_writer().expect("permit"))
        .collect::<Vec<_>>();

    let error = state
        .try_acquire_multipart_part_writer()
        .expect_err("multipart part writer limit should reject");
    let response = error.into_response_with_request_id(&RequestId::new());
    assert_eq!(response.status, 503);

    drop(permits);
    let _permit = state
        .try_acquire_multipart_part_writer()
        .expect("permit released after drop");
}

#[test]
fn admission_limits_are_configurable() {
    let state = control(UploadLimits {
        max_concurrent_s3_requests: 1,
        max_active_object_writers: 1,
        max_active_multipart_part_writers: 1,
        max_active_aws_chunked_decoders: 1,
        ..Default::default()
    });

    let _request = state.try_acquire_s3_request().expect("request permit");
    assert!(state.try_acquire_s3_request().is_err());

    let _object = state.try_acquire_object_writer().expect("object permit");
    assert!(state.try_acquire_object_writer().is_err());

    let _part = state
        .try_acquire_multipart_part_writer()
        .expect("part permit");
    assert!(state.try_acquire_multipart_part_writer().is_err());

    let mut headers = HeaderMap::new();
    headers.insert("content-encoding", "aws-chunked");
    let _decoder = state
        .try_acquire_aws_chunked_decoder(&headers)
        .expect("decoder permit")
        .expect("aws-chunked permit");
    assert!(state.try_acquire_aws_chunked_decoder(&headers).is_err());
}

#[test]
fn aws_chunked_decoder_admission_only_applies_to_aws_chunked_requests() {
    let limits = UploadLimits::default();
    let state = control(limits);
    let mut aws_chunked_headers = HeaderMap::new();
    aws_chunked_headers.insert("content-encoding", "aws-chunked");
    let permits = (0..limits.max_active_aws_chunked_decoders)
        .map(|_| {
            state
                .try_acquire_aws_chunked_decoder(&aws_chunked_headers)
                .expect("permit")
                .expect("aws-chunked permit")
        })
        .collect::<Vec<_>>();

    let plain_headers = HeaderMap::new();
    assert!(
        state
            .try_acquire_aws_chunked_decoder(&plain_headers)
            .expect("plain request")
            .is_none()
    );

    let error = state
        .try_acquire_aws_chunked_decoder(&aws_chunked_headers)
        .expect_err("aws-chunked decoder limit should reject");
    let response = error.into_response_with_request_id(&RequestId::new());
    assert_eq!(response.status, 503);

    drop(permits);
    assert!(
        state
            .try_acquire_aws_chunked_decoder(&aws_chunked_headers)
            .expect("permit released after drop")
            .is_some()
    );
}

#[test]
fn requests_without_a_permit_are_refused() {
    assert_eq!(admission_result(Some(7), "busy").expect("permit"), 7);
    let error = admission_result::<u8>(None, "busy").expect_err("no permit");
    assert_eq!(error.code(), "SlowDown");
    assert_eq!(error.message(), "busy");
}
