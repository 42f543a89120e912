use ftnl_backend_api::problem::{map_upload_error, ApiError, RangeProblem};
use ftnl_backend_api::resumable::{
    AppendOutcome, ContentRange, RangeError, UploadBuffer, UploadError,
};
use ftnl_backend_api::upload::{requested_range, upload_response};

#[test]
fn parses_strict_content_range() {
    assert_eq!(
        ContentRange::parse("bytes 10-19/100", 100),
        Ok(ContentRange {
            start: 10,
            end_exclusive: 20,
            total: 100,
        })
    );
    assert_eq!(ContentRange::parse("items 0-9/10", 10), Err(RangeError::InvalidUnit));
    assert_eq!(
        ContentRange::parse("bytes 0-9/11", 10),
        Err(RangeError::TotalMismatch {
            expected: 10,
            actual: 11,
        })
    );
    assert!(ContentRange::parse("bytes */10", 10).is_err());
    assert!(ContentRange::parse("bytes 01-9/10", 10).is_err());
}

#[test]
fn every_malformed_range_has_its_error() {
    let cases = [
        ("", 10, RangeError::InvalidUnit),
        ("bytes=0-9/10", 10, RangeError::InvalidUnit),
        ("Bytes 0-9/10", 10, RangeError::InvalidUnit),
        ("bytes 0-9", 10, RangeError::InvalidSyntax),
        ("bytes 09/10", 10, RangeError::InvalidSyntax),
        ("bytes 0-5-9/10", 10, RangeError::InvalidSyntax),
        ("bytes */10", 10, RangeError::UnsupportedWildcard),
        ("bytes 0-9/*", 10, RangeError::UnsupportedWildcard),
        ("bytes 0-3,5-9/10", 10, RangeError::UnsupportedWildcard),
        ("bytes 0-9/10/10", 10, RangeError::UnsupportedWildcard),
        ("bytes 0-9/", 10, RangeError::InvalidNumber),
        ("bytes 0-9/010", 10, RangeError::InvalidNumber),
        ("bytes +0-9/10", 10, RangeError::InvalidNumber),
        ("bytes 0- 9/10", 10, RangeError::InvalidNumber),
        ("bytes -9/10", 10, RangeError::InvalidNumber),
        ("bytes 0-18446744073709551616/10", 10, RangeError::InvalidNumber),
        ("bytes 5-4/10", 10, RangeError::Reversed),
        (
            "bytes 0-18446744073709551615/18446744073709551615",
            u64::MAX,
            RangeError::OffsetOverflow,
        ),
        (
            "bytes 0-10/10",
            10,
            RangeError::OutsideDeclaredSize {
                end_exclusive: 11,
                total: 10,
            },
        ),
    ];
    for (value, total, expected) in cases {
        assert_eq!(ContentRange::parse(value, total), Err(expected), "{value}");
    }
}

#[test]
fn white_space_around_a_range_is_ignored() {
    let expected = Ok(ContentRange {
        start: 0,
        end_exclusive: 10,
        total: 10,
    });
    assert_eq!(ContentRange::parse("  bytes 0-9/10\t", 10), expected);
    assert_eq!(ContentRange::parse("\u{3000}bytes 0-9/10\u{2028}", 10), expected);
    assert_eq!(
        ContentRange::parse("bytes  0-9/10", 10),
        Err(RangeError::InvalidNumber)
    );
}

#[test]
fn a_written_range_is_read_back() {
    for (start, end, total) in [(0_u64, 0_u64, 1_u64), (0, 9, 10), (7, 7, 8), (99, 100, 1000)] {
        let header = format!("bytes {start}-{end}/{total}");
        let range = ContentRange::parse(&header, total).expect("range");
        assert_eq!(range, ContentRange { start, end_exclusive: end + 1, total });
        assert_eq!(range.len(), end + 1 - start);
        assert!(!range.is_empty());
    }
    assert!(ContentRange::whole(0).is_empty());
    assert_eq!(ContentRange::whole(5).len(), 5);
    let last = ContentRange::parse(
        "bytes 18446744073709551613-18446744073709551614/18446744073709551615",
        u64::MAX,
    )
    .expect("last bytes");
    assert_eq!(last.len(), 2);
}

#[test]
fn appends_sequential_chunks_to_completion() {
    let mut upload = UploadBuffer::new(6);
    assert_eq!(
        upload.append(
            ContentRange::parse("bytes 0-2/6", 6).expect("first range"),
            b"abc",
        ),
        Ok(AppendOutcome {
            offset: 3,
            complete: false,
            replayed: false,
        })
    );
    assert_eq!(
        upload.append(
            ContentRange::parse("bytes 3-5/6", 6).expect("second range"),
            b"def",
        ),
        Ok(AppendOutcome {
            offset: 6,
            complete: true,
            replayed: false,
        })
    );
    assert_eq!(upload.as_slice(), b"abcdef");
}

#[test]
fn exact_retry_is_idempotent() {
    let mut upload = UploadBuffer::new(6);
    let range = ContentRange::parse("bytes 0-2/6", 6).expect("range");
    upload.append(range, b"abc").expect("first append");
    assert_eq!(
        upload.append(range, b"abc"),
        Ok(AppendOutcome {
            offset: 3,
            complete: false,
            replayed: true,
        })
    );
    assert_eq!(upload.as_slice(), b"abc");
}

#[test]
fn conflicting_retry_and_partial_overlap_fail_closed() {
    let mut upload = UploadBuffer::new(6);
    upload
        .append(ContentRange::parse("bytes 0-2/6", 6).expect("range"), b"abc")
        .expect("first append");
    assert!(matches!(
        upload.append(
            ContentRange::parse("bytes 0-2/6", 6).expect("retry"),
            b"xyz"
        ),
        Err(UploadError::ConflictingReplay { .. })
    ));
    assert!(matches!(
        upload.append(
            ContentRange::parse("bytes 2-4/6", 6).expect("overlap"),
            b"cde"
        ),
        Err(UploadError::PartialOverlap { .. })
    ));
    assert_eq!(upload.as_slice(), b"abc");
}

#[test]
fn gaps_and_wrong_body_lengths_do_not_mutate_state() {
    let mut upload = UploadBuffer::new(6);
    assert!(matches!(
        upload.append(
            ContentRange::parse("bytes 3-5/6", 6).expect("gap"),
            b"def"
        ),
        Err(UploadError::Gap { .. })
    ));
    assert!(matches!(
        upload.append(
            ContentRange::parse("bytes 0-2/6", 6).expect("length"),
            b"ab"
        ),
        Err(UploadError::BodyLength { .. })
    ));
    assert_eq!(upload.offset(), 0);
}

#[test]
fn empty_legacy_upload_completes() {
    let mut upload = UploadBuffer::new(0);
    assert_eq!(
        upload.append(ContentRange::whole(0), b""),
        Ok(AppendOutcome {
            offset: 0,
            complete: true,
            replayed: false,
        })
    );
}

#[test]
fn a_range_of_another_size_is_refused() {
    let mut upload = UploadBuffer::new(6);
    assert_eq!(upload.total(), 6);
    assert!(!upload.is_complete());
    assert_eq!(
        upload.append(ContentRange::whole(7), b"abcdefg"),
        Err(UploadError::TotalChanged {
            expected: 6,
            actual: 7,
        })
    );
    assert_eq!(upload.offset(), 0);
}

#[test]
fn a_retry_may_cover_several_chunks() {
    let mut upload = UploadBuffer::new(6);
    for (header, chunk) in [("bytes 0-1/6", b"ab"), ("bytes 2-3/6", b"cd")] {
        upload
            .append(ContentRange::parse(header, 6).expect("range"), chunk)
            .expect("chunk");
    }
    assert_eq!(
        upload.append(ContentRange::parse("bytes 1-3/6", 6).expect("range"), b"bcd"),
        Ok(AppendOutcome {
            offset: 4,
            complete: false,
            replayed: true,
        })
    );
    assert_eq!(upload.as_slice(), b"abcd");
}

#[test]
fn the_cut_of_the_chunks_makes_no_difference() {
    let content = b"the quick brown fox";
    for size in 1..=content.len() {
        let total = content.len() as u64;
        let mut upload = UploadBuffer::new(total);
        for chunk in content.chunks(size) {
            let start = upload.offset();
            let range = ContentRange {
                start,
                end_exclusive: start + chunk.len() as u64,
                total,
            };
            upload.append(range, chunk).expect("chunk");
        }
        assert!(upload.is_complete());
        assert_eq!(upload.as_slice(), content);
    }
}

#[test]
fn errors_explain_themselves() {
    let range_errors = [
        (RangeError::InvalidUnit, "Content-Range must use the `bytes` unit"),
        (
            RangeError::InvalidSyntax,
            "Content-Range must use `bytes START-END/TOTAL` syntax",
        ),
        (
            RangeError::InvalidNumber,
            "Content-Range offsets must be unsigned decimal integers",
        ),
        (
            RangeError::UnsupportedWildcard,
            "Content-Range wildcards and multipart ranges are unsupported",
        ),
        (RangeError::Reversed, "Content-Range end precedes its start"),
        (RangeError::OffsetOverflow, "Content-Range end offset overflowed"),
        (
            RangeError::TotalMismatch { expected: 10, actual: 11 },
            "Content-Range total 11 does not match declared size 10",
        ),
        (
            RangeError::OutsideDeclaredSize { end_exclusive: 11, total: 10 },
            "Content-Range ends at 11, beyond declared size 10",
        ),
    ];
    for (error, text) in range_errors {
        assert_eq!(error.message(), text);
    }
    let upload_errors = [
        (
            UploadError::TotalChanged { expected: 6, actual: 7 },
            "upload total changed from 6 to 7",
        ),
        (
            UploadError::BodyLength { expected: 3, actual: 2 },
            "request body contains 2 bytes; Content-Range requires 3",
        ),
        (
            UploadError::Gap { expected_start: 0, actual_start: 3 },
            "upload gap: server expects offset 0, request begins at 3",
        ),
        (
            UploadError::PartialOverlap { committed: 3, start: 2, end_exclusive: 5 },
            "range 2..5 partially overlaps committed offset 3",
        ),
        (
            UploadError::ConflictingReplay { start: 0, end_exclusive: 3 },
            "replayed range 0..3 does not match committed bytes",
        ),
        (
            UploadError::ChunkTooLarge,
            "range length cannot be represented by this server",
        ),
    ];
    for (error, text) in upload_errors {
        assert_eq!(error.message(), text);
    }
}

#[test]
fn refused_chunks_are_invalid_or_in_conflict() {
    let short = UploadError::BodyLength { expected: 3, actual: 2 };
    assert_eq!(
        map_upload_error(short),
        ApiError::InvalidRange(RangeProblem::Upload(short))
    );
    assert_eq!(
        map_upload_error(UploadError::ChunkTooLarge),
        ApiError::InvalidRange(RangeProblem::Upload(UploadError::ChunkTooLarge))
    );
    for error in [
        UploadError::TotalChanged { expected: 6, actual: 7 },
        UploadError::Gap { expected_start: 0, actual_start: 3 },
        UploadError::PartialOverlap { committed: 3, start: 2, end_exclusive: 5 },
        UploadError::ConflictingReplay { start: 0, end_exclusive: 3 },
    ] {
        assert_eq!(map_upload_error(error), ApiError::UploadConflict(error));
    }
}

#[test]
fn upload_responses_expose_resume_checkpoint() {
    let partial = upload_response(AppendOutcome {
        offset: 1024,
        complete: false,
        replayed: false,
    });
    assert_eq!(partial.status, 308);
    assert_eq!(partial.upload_offset, "1024");
    assert_eq!(partial.upload_complete, "false");

    let complete = upload_response(AppendOutcome {
        offset: 2048,
        complete: true,
        replayed: false,
    });
    assert_eq!(complete.status, 204);
    assert_eq!(complete.upload_complete, "true");
}

#[test]
fn a_request_without_a_range_asks_for_the_whole_file() {
    assert_eq!(requested_range(None, 42), Ok(ContentRange::whole(42)));
    assert_eq!(
        requested_range(Some(b"bytes 0-1/42"), 42),
        Ok(ContentRange {
            start: 0,
            end_exclusive: 2,
            total: 42,
        })
    );
    assert_eq!(
        requested_range(Some(b"bytes 0-1/\xff"), 42),
        Err(ApiError::InvalidRange(RangeProblem::NotAscii))
    );
    assert_eq!(
        requested_range(Some(b"bytes 0-1\n/42"), 42),
        Err(ApiError::InvalidRange(RangeProblem::NotAscii))
    );
    assert_eq!(
        requested_range(Some(b"bytes 2-1/42"), 42),
        Err(ApiError::InvalidRange(RangeProblem::Header(RangeError::Reversed)))
    );
}
