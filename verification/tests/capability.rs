use ftnl_backend_api::capability::{bearer_hash, hashes_equal, token, token_from, token_hash};
use ftnl_backend_api::problem::{ApiError, InvalidRequest, RangeProblem};
use ftnl_backend_api::resumable::{RangeError, UploadError};
use ftnl_backend_api::time::Timestamp;

#[test]
fn tokens_are_opaque_and_hash_comparison_is_constant_time() {
    let value = token();
    assert_eq!(value.len(), 64);
    let digest = token_hash(&value);
    assert!(hashes_equal(&digest, &token_hash(&value)));
    assert!(!hashes_equal(&digest, &token_hash("wrong")));
}

#[test]
fn tokens_are_the_digits_of_two_random_identifiers() {
    let value = token();
    assert!(value.bytes().all(|b| b.is_ascii_digit() || (b'a'..=b'f').contains(&b)));
    for half in [&value[..32], &value[32..]] {
        let id = uuid::Uuid::parse_str(half).expect("identifier");
        assert_eq!(id.get_version_num(), 4);
    }
    assert_ne!(value, token());
}

#[test]
fn identifiers_are_written_in_lower_case() {
    assert_eq!(
        token_from(0x0123_4567_89ab_cdef_0123_4567_89ab_cdef, 0xff),
        "0123456789abcdef0123456789abcdef000000000000000000000000000000ff"
    );
}

#[test]
fn digests_are_sha_256() {
    assert_eq!(
        token_hash("abc"),
        [
            0xba, 0x78, 0x16, 0xbf, 0x8f, 0x01, 0xcf, 0xea, 0x41, 0x41, 0x40, 0xde, 0x5d, 0xae,
            0x22, 0x23, 0xb0, 0x03, 0x61, 0xa3, 0x96, 0x17, 0x7a, 0x9c, 0xb4, 0x10, 0xff, 0x61,
            0xf2, 0x00, 0x15, 0xad,
        ]
    );
}

#[test]
fn bearer_tokens_are_read_from_the_header() {
    assert_eq!(bearer_hash(Some(b"Bearer abc")), Ok(token_hash("abc")));
    assert_eq!(bearer_hash(Some(b"Bearer  abc")), Ok(token_hash(" abc")));
    let refused: [Option<&[u8]>; 7] = [
        None,
        Some(b""),
        Some(b"Bearer "),
        Some(b"Bearer"),
        Some(b"bearer abc"),
        Some(b"Basic abc"),
        Some(b"Bearer \xc3\xa9"),
    ];
    for header in refused {
        assert_eq!(bearer_hash(header), Err(ApiError::Unauthorized));
    }
    assert_eq!(bearer_hash(Some(b"Bearer a\x00b")), Err(ApiError::Unauthorized));
}

#[test]
fn a_token_comes_back_out_of_its_header() {
    let value = token();
    let header = format!("Bearer {value}");
    assert_eq!(bearer_hash(Some(header.as_bytes())), Ok(token_hash(&value)));
}

#[test]
fn every_refusal_has_its_problem_document() {
    let conflict = UploadError::Gap { expected_start: 0, actual_start: 3 };
    let cases = [
        (
            ApiError::Invalid(InvalidRequest::MaxFiles),
            400,
            "Invalid request",
            "invalid_request",
            "invalid request: max_files must be between 1 and 100",
        ),
        (
            ApiError::InvalidRange(RangeProblem::Header(RangeError::Reversed)),
            400,
            "Invalid request",
            "invalid_request",
            "invalid upload range: Content-Range end precedes its start",
        ),
        (
            ApiError::UploadConflict(conflict),
            409,
            "Upload offset conflict",
            "upload_offset_conflict",
            "upload offset conflict: upload gap: server expects offset 0, request begins at 3",
        ),
        (
            ApiError::Unauthorized,
            401,
            "Unauthorized capability",
            "unauthorized",
            "capability is missing or invalid",
        ),
        (
            ApiError::NotFound,
            404,
            "Not found",
            "not_found",
            "tunnel or file was not found",
        ),
        (
            ApiError::Expired,
            410,
            "Tunnel expired",
            "tunnel_expired",
            "tunnel has expired",
        ),
        (
            ApiError::Conflict,
            409,
            "State conflict",
            "state_conflict",
            "resource state conflicts with this operation",
        ),
        (
            ApiError::TooLarge,
            413,
            "File too large",
            "file_too_large",
            "declared upload is too large",
        ),
        (
            ApiError::UnsupportedMedia,
            415,
            "Unsupported media type",
            "unsupported_media_type",
            "media type is not accepted",
        ),
    ];
    for (error, status, title, code, detail) in cases {
        let problem = error.into_problem();
        assert_eq!(problem.status, status);
        assert_eq!(problem.title, title);
        assert_eq!(problem.code, code);
        assert_eq!(problem.kind, format!("https://file-tunnel.dev/problems/{code}"));
        assert_eq!(problem.detail, detail);
    }
}

#[test]
fn every_broken_rule_is_named() {
    let cases = [
        (InvalidRequest::ApplicationId, "application_id must be 1..128 bytes"),
        (InvalidRequest::MaxFiles, "max_files must be between 1 and 100"),
        (
            InvalidRequest::MaxFileBytes,
            "max_file_bytes is outside the supported range",
        ),
        (
            InvalidRequest::ExpiresInSeconds,
            "expires_in_seconds must be 60..3600",
        ),
        (
            InvalidRequest::Accept,
            "accept must contain 1..32 media patterns",
        ),
        (
            InvalidRequest::FileName,
            "name must be printable and at most 255 bytes",
        ),
        (
            InvalidRequest::Sha256,
            "sha256 must be 64 hexadecimal characters",
        ),
        (InvalidRequest::Body, "invalid request body"),
    ];
    for (rule, text) in cases {
        assert_eq!(rule.message(), text);
    }
    let ranges = [
        (RangeProblem::NotAscii, "Content-Range is not ASCII".to_owned()),
        (
            RangeProblem::BodyExceeds { limit: 1024 },
            "request body exceeds declared range length 1024".to_owned(),
        ),
        (
            RangeProblem::BodyLength { received: 3, required: 10 },
            "request body contains 3 bytes; range requires 10".to_owned(),
        ),
        (
            RangeProblem::Upload(UploadError::ChunkTooLarge),
            "range length cannot be represented by this server".to_owned(),
        ),
    ];
    for (problem, text) in ranges {
        assert_eq!(problem.message(), text);
    }
}

#[test]
fn instants_are_ordered_to_the_nanosecond() {
    let earlier = Timestamp { seconds: 10, nanos: 5 };
    let later = Timestamp { seconds: 10, nanos: 6 };
    assert!(earlier.is_at_or_before(&later));
    assert!(earlier.is_at_or_before(&earlier));
    assert!(!later.is_at_or_before(&earlier));
    assert!(later.is_at_or_before(&Timestamp { seconds: 11, nanos: 0 }));
    assert_eq!(earlier.plus_seconds(600), Timestamp { seconds: 610, nanos: 5 });
}
