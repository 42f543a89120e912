//! Laws of ranges and of resumable uploads.
use vstd::prelude::*;

use crate::header;
use crate::laws::vocabulary;
use crate::problem;
use crate::problem::{ApiError, RangeProblem};
use crate::resumable;
use crate::resumable::{AppendOutcome, ContentRange, RangeError, Upload, UploadError};
use crate::text;
use crate::upload;
use crate::upload::PendingModel;

verus! {

/// A range with at least one byte that lies within an object of `total` bytes.
pub open spec fn is_writable(range: ContentRange, total: u64) -> bool {
    range.total == total && range.start < range.end_exclusive <= total
}

proof fn lemma_number_of_decimal(n: u64)
    ensures
        text::number(text::decimal(n as nat)) == Some(n),
        text::is_numeral(text::decimal(n as nat)),
{
    text::lemma_decimal_denotes(n as nat);
}

proof fn lemma_decimal_of_number(s: Seq<char>)
    ensures
        text::number(s) matches Some(n) ==> s == text::decimal(n as nat),
{
    if text::number(s) is Some {
        text::lemma_decimal_of_value(s);
    }
}

proof fn lemma_bounds(first: Seq<char>, last: Seq<char>)
    requires
        text::is_numeral(first),
        text::is_numeral(last),
    ensures
        text::split_once(first + seq!['-'] + last, '-') == Some((first, last)),
        !last.contains('-'),
        !(first + seq!['-'] + last).contains(','),
        !(first + seq!['-'] + last).contains('/'),
        first + seq!['-'] + last != "*"@,
{
    let bounds = first + seq!['-'] + last;
    let at = first.len() as int;
    assert forall|j: int| 0 <= j < at implies bounds[j] != '-' by {
        assert(text::is_digit(first[j]));
    }
    assert(bounds[at] == '-');
    text::lemma_split_once_at(bounds, '-', at);
    assert(bounds.take(at) =~= first);
    assert(bounds.skip(at + 1) =~= last);
    assert forall|j: int| 0 <= j < bounds.len() implies text::is_digit(#[trigger] bounds[j])
        || bounds[j] == '-' by {
        if j < at {
            assert(text::is_digit(first[j]));
        } else if j > at {
            assert(text::is_digit(last[j - at - 1]));
        }
    }
    reveal_strlit("*");
    assert(bounds.len() >= 3);
}

/// The one way to write a range is the one that is read back: a header value
/// is accepted for an object exactly where, without the white space around it,
/// it is the header value of a range with at least one byte of that object.
/// Wildcards, unknown totals, lists of ranges, signs and padding are therefore
/// refused.
pub proof fn law_one_spelling_per_range(header: Seq<char>, total: u64, range: ContentRange)
    ensures
        resumable::range_of(header, total) == Ok::<_, resumable::RangeError>(range) <==> (text::trim(
            header,
        ) == range.header_value() && is_writable(range, total)),
{
    let value = text::trim(header);
    let unit = "bytes "@;
    reveal_strlit("bytes ");
    reveal_strlit("*");
    if value == range.header_value() && is_writable(range, total) {
        let first = text::decimal(range.start as nat);
        let last = text::decimal((range.end_exclusive - 1) as nat);
        let size = text::decimal(range.total as nat);
        lemma_number_of_decimal(range.start);
        lemma_number_of_decimal((range.end_exclusive - 1) as u64);
        lemma_number_of_decimal(range.total);
        lemma_bounds(first, last);
        let bounds = first + seq!['-'] + last;
        let remainder = bounds + seq!['/'] + size;
        assert(value =~= unit + remainder);
        assert(value.skip(unit.len() as int) =~= remainder);
        assert(unit =~= value.subrange(0, unit.len() as int));
        let at = bounds.len() as int;
        assert forall|j: int| 0 <= j < at implies remainder[j] != '/' by {
            assert(bounds.contains(bounds[j]));
        }
        text::lemma_split_once_at(remainder, '/', at);
        assert(remainder.take(at) =~= bounds);
        assert(remainder.skip(at + 1) =~= size);
        assert forall|j: int| 0 <= j < size.len() implies size[j] != '/' by {
            assert(text::is_digit(size[j]));
        }
        assert(text::is_digit(size[0]));
        assert(size != "*"@);
    }
    if resumable::range_of(header, total) == Ok::<_, resumable::RangeError>(range) {
        let remainder = text::strip_prefix(value, unit)->0;
        text::lemma_split_once_parts(remainder, '/');
        let (bounds, size) = text::split_once(remainder, '/')->0;
        text::lemma_split_once_parts(bounds, '-');
        let (first, last) = text::split_once(bounds, '-')->0;
        lemma_decimal_of_number(size);
        lemma_decimal_of_number(first);
        lemma_decimal_of_number(last);
        assert(value =~= unit + remainder);
        assert(remainder =~= bounds + seq!['/'] + size);
        assert(bounds =~= first + seq!['-'] + last);
        assert(value =~= range.header_value());
    }
}

/// The concatenation of chunks.
pub open spec fn joined(chunks: Seq<Seq<u8>>) -> Seq<u8>
    decreases chunks.len(),
{
    if chunks.len() == 0 {
        Seq::empty()
    } else {
        joined(chunks.drop_last()) + chunks.last()
    }
}

/// The range of a chunk that begins where the upload stands.
pub open spec fn next_range(upload: Upload, chunk: Seq<u8>) -> ContentRange {
    ContentRange {
        start: upload.bytes.len() as u64,
        end_exclusive: (upload.bytes.len() + chunk.len()) as u64,
        total: upload.total,
    }
}

/// The upload after each chunk was sent from where the upload then stood.
pub open spec fn sent(upload: Upload, chunks: Seq<Seq<u8>>) -> Upload
    decreases chunks.len(),
{
    if chunks.len() == 0 {
        upload
    } else {
        let before = sent(upload, chunks.drop_last());
        before.committed(next_range(before, chunks.last()), chunks.last())
    }
}

/// Chunks that are sent one after the other, each from the offset that the
/// server expects, are all accepted as long as they fit the declared size, and
/// what is committed is their concatenation. How the bytes are cut up makes no
/// difference.
pub proof fn law_chunks_concatenate(total: u64, chunks: Seq<Seq<u8>>)
    requires
        joined(chunks).len() <= total,
        total <= usize::MAX,
    ensures
        sent(Upload { total, bytes: Seq::empty() }, chunks) == (Upload {
            total,
            bytes: joined(chunks),
        }),
        forall|i: int|
            0 <= i < chunks.len() ==> {
                let before = sent(
                    Upload { total, bytes: Seq::empty() },
                    #[trigger] chunks.take(i),
                );
                before.refusal(next_range(before, chunks[i]), chunks[i]) is None
            },
    decreases chunks.len(),
{
    let start = Upload { total, bytes: Seq::empty() };
    if chunks.len() > 0 {
        let front = chunks.drop_last();
        law_chunks_concatenate(total, front);
        assert forall|i: int| 0 <= i < chunks.len() implies {
            let before = sent(start, #[trigger] chunks.take(i));
            before.refusal(next_range(before, chunks[i]), chunks[i]) is None
        } by {
            if i < front.len() {
                assert(chunks.take(i) =~= front.take(i));
                assert(chunks[i] == front[i]);
            } else {
                assert(chunks.take(i) =~= front);
            }
        }
        assert(sent(start, chunks) =~= Upload { total, bytes: joined(chunks) });
    } else {
        assert(sent(start, chunks) =~= Upload { total, bytes: joined(chunks) });
    }
}

/// A request without a range sends the whole file at once: it is accepted where
/// nothing was committed before, and completes the upload.
pub proof fn law_one_request_suffices(total: u64, body: Seq<u8>)
    requires
        body.len() == total <= usize::MAX,
    ensures
        ({
            let upload = Upload { total, bytes: Seq::empty() };
            let range = upload::range_asked(None, total)->Ok_0;
            &&& upload::range_asked(None, total) is Ok
            &&& upload.refusal(range, body) is None
            &&& upload.committed(range, body).bytes == body
            &&& upload.outcome(range, body) == (AppendOutcome {
                offset: total,
                complete: true,
                replayed: false,
            })
        }),
{
    assert(Seq::<u8>::empty() + body =~= body);
}

/// An exact retry of an accepted chunk is accepted and changes nothing, however
/// much has been committed in between; the uploader is told where the upload
/// stands. A retry with at least one byte is reported as one.
pub proof fn law_exact_retry_is_idempotent(
    upload: Upload,
    range: ContentRange,
    chunk: Seq<u8>,
    later: Upload,
)
    requires
        upload.is_valid(),
        range.is_valid(),
        upload.refusal(range, chunk) is None,
        later.total == upload.total,
        upload.committed(range, chunk).bytes.is_prefix_of(later.bytes),
    ensures
        later.refusal(range, chunk) is None,
        later.committed(range, chunk) == later,
        later.outcome(range, chunk).offset == later.bytes.len() as u64,
        later.outcome(range, chunk).complete == later.is_complete(),
        later.outcome(range, chunk).replayed <==> later.is_replay(range),
        chunk.len() > 0 ==> later.is_replay(range),
{
    let after = upload.committed(range, chunk);
    assert(after.bytes =~= later.bytes.subrange(0, after.bytes.len() as int));
    assert(after.bytes.subrange(range.start as int, range.end_exclusive as int) =~= chunk);
    assert(later.bytes.subrange(range.start as int, range.end_exclusive as int) =~= chunk) by {
        assert forall|i: int| range.start <= i < range.end_exclusive implies later.bytes[i]
            == after.bytes[i] by {}
    }
    if chunk.len() == 0 {
        assert(later.bytes + chunk =~= later.bytes);
    }
    assert(later.committed(range, chunk) =~= later);
}

/// A chunk for bytes that are already committed is accepted only where it
/// repeats them byte for byte.
pub proof fn law_replay_must_match(upload: Upload, range: ContentRange, chunk: Seq<u8>)
    requires
        upload.is_valid(),
        range.is_valid(),
        upload.is_replay(range),
    ensures
        upload.refusal(range, chunk) is None <==> range.total == upload.total
            && range.end_exclusive <= upload.bytes.len() && chunk == upload.bytes.subrange(
            range.start as int,
            range.end_exclusive as int,
        ) && range.end_exclusive - range.start <= usize::MAX,
{
}

/// A new chunk is accepted only where it begins at the offset that the server
/// expects: a gap or a partial overlap is a conflict, answered with status 409.
pub proof fn law_no_gap_and_no_overlap(upload: Upload, range: ContentRange, chunk: Seq<u8>)
    requires
        upload.is_valid(),
        range.is_valid(),
        range.total == upload.total,
        chunk.len() == range.end_exclusive - range.start <= usize::MAX,
        range.start != upload.bytes.len(),
        range.end_exclusive > upload.bytes.len(),
    ensures
        upload.refusal(range, chunk) matches Some(error) && (error is Gap || error is PartialOverlap)
            && problem::upload_refusal(error).http_status() == 409,
{
}

/// A retry with other bytes is a conflict, answered with status 409.
pub proof fn law_conflicting_retry(upload: Upload, range: ContentRange, chunk: Seq<u8>)
    requires
        upload.is_valid(),
        range.is_valid(),
        range.total == upload.total,
        chunk.len() == range.end_exclusive - range.start <= usize::MAX,
        upload.is_replay(range),
        range.end_exclusive <= upload.bytes.len(),
        chunk != upload.bytes.subrange(range.start as int, range.end_exclusive as int),
    ensures
        upload.refusal(range, chunk) == Some(
            UploadError::ConflictingReplay {
                start: range.start,
                end_exclusive: range.end_exclusive,
            },
        ),
        problem::upload_refusal(upload.refusal(range, chunk)->0).http_status() == 409,
{
}

/// Committed bytes are never changed or lost: whatever is sent, what was
/// committed before stays in front of what comes after, and no more than the
/// declared size is ever committed.
pub proof fn law_committed_bytes_stay(upload: Upload, range: ContentRange, chunk: Seq<u8>)
    requires
        upload.is_valid(),
        range.is_valid(),
        upload.refusal(range, chunk) is None,
    ensures
        upload.bytes.is_prefix_of(upload.committed(range, chunk).bytes),
        upload.committed(range, chunk).is_valid(),
        upload.committed(range, chunk).total == upload.total,
{
    let after = upload.committed(range, chunk);
    assert(upload.bytes =~= after.bytes.subrange(0, upload.bytes.len() as int));
}

/// The header value of a range names its first byte, its last byte and the size
/// of the object, in decimal digits.
pub proof fn law_header_values(
    range: ContentRange,
    first: Seq<char>,
    last: Seq<char>,
    size: Seq<char>,
)
    requires
        range.start < range.end_exclusive,
        vocabulary::writes(first, range.start as int),
        vocabulary::writes(last, range.end_exclusive - 1),
        vocabulary::writes(size, range.total as int),
    ensures
        range.header_value() == "bytes "@ + first + seq!['-'] + last + seq!['/'] + size,
{
    vocabulary::law_numerals(first, range.start);
    vocabulary::law_numerals(last, (range.end_exclusive - 1) as u64);
    vocabulary::law_numerals(size, range.total);
}

/// The text is a 64-bit number in decimal digits.
pub open spec fn is_number(s: Seq<char>) -> bool {
    exists|n: u64| #[trigger] vocabulary::writes(s, n as int)
}

proof fn lemma_numbers(s: Seq<char>)
    ensures
        is_number(s) <==> text::number(s) is Some,
        text::number(s) is Some ==> vocabulary::writes(s, text::number(s)->0 as int),
{
    if text::number(s) is Some {
        let n = text::number(s)->0;
        vocabulary::law_numerals(s, n);
        assert(vocabulary::writes(s, n as int));
    }
    if is_number(s) {
        let n = choose|n: u64| #[trigger] vocabulary::writes(s, n as int);
        vocabulary::law_numerals(s, n);
    }
}

proof fn lemma_split(before: Seq<char>, mark: char, after: Seq<char>)
    requires
        !before.contains(mark),
    ensures
        text::split_once(before + seq![mark] + after, mark) == Some((before, after)),
{
    let whole = before + seq![mark] + after;
    let at = before.len() as int;
    assert forall|j: int| 0 <= j < at implies whole[j] != mark by {
        assert(before.contains(before[j]));
    }
    assert(whole[at] == mark);
    text::lemma_split_once_at(whole, mark, at);
    assert(whole.take(at) =~= before);
    assert(whole.skip(at + 1) =~= after);
}

/// A range is refused for its unit exactly where, without white space around it,
/// it does not begin with `bytes` and a space; and for its syntax where no slash
/// follows.
pub proof fn law_range_unit(header: Seq<char>, total: u64, rest: Seq<char>)
    ensures
        resumable::range_of(header, total) == Err::<ContentRange, RangeError>(
            RangeError::InvalidUnit,
        ) <==> !"bytes "@.is_prefix_of(text::trim(header)),
        text::trim(header) == "bytes "@ + rest && !rest.contains('/') ==> resumable::range_of(
            header,
            total,
        ) == Err::<ContentRange, RangeError>(RangeError::InvalidSyntax),
{
    let value = text::trim(header);
    if value == "bytes "@ + rest {
        assert("bytes "@ =~= value.subrange(0, "bytes "@.len() as int));
        assert(value.skip("bytes "@.len() as int) =~= rest);
        if !rest.contains('/') {
            text::lemma_split_once_absent(rest, '/');
        }
    }
}

/// What comes after the unit is the bounds, a slash and the size. A list of
/// ranges, a wildcard or a second slash is unsupported; a size that is no number
/// is no number; and a size other than the declared one is a mismatch.
pub proof fn law_range_size(
    header: Seq<char>,
    total: u64,
    bounds: Seq<char>,
    size: Seq<char>,
    actual: u64,
)
    requires
        text::trim(header) == "bytes "@ + bounds + seq!['/'] + size,
        !bounds.contains('/'),
    ensures
        ({
            let odd = size.contains('/') || bounds.contains(',') || size == seq!['*'] || bounds
                == seq!['*'];
            let result = resumable::range_of(header, total);
            &&& odd ==> result == Err::<ContentRange, RangeError>(RangeError::UnsupportedWildcard)
            &&& !odd && !is_number(size) ==> result == Err::<ContentRange, RangeError>(
                RangeError::InvalidNumber,
            )
            &&& !odd && vocabulary::writes(size, actual as int) && actual != total ==> result
                == Err::<ContentRange, RangeError>(
                RangeError::TotalMismatch { expected: total, actual },
            )
            &&& !odd && vocabulary::writes(size, total as int) && !bounds.contains('-') ==> result
                == Err::<ContentRange, RangeError>(RangeError::InvalidSyntax)
        }),
{
    let value = text::trim(header);
    let unit = "bytes "@;
    let rest = bounds + seq!['/'] + size;
    reveal_strlit("*");
    assert("*"@ =~= seq!['*']);
    assert(value =~= unit + rest);
    assert(unit =~= value.subrange(0, unit.len() as int));
    assert(value.skip(unit.len() as int) =~= rest);
    lemma_split(bounds, '/', size);
    lemma_numbers(size);
    vocabulary::law_numerals(size, actual);
    vocabulary::law_numerals(size, total);
    if !bounds.contains('-') {
        text::lemma_split_once_absent(bounds, '-');
    }
}

/// The bounds are the first byte, a hyphen and the last byte, both numbers; the
/// last does not come before the first, and lies within the declared size.
pub proof fn law_range_bounds(
    header: Seq<char>,
    total: u64,
    first: Seq<char>,
    last: Seq<char>,
    size: Seq<char>,
    start: u64,
    end: u64,
)
    requires
        text::trim(header) == "bytes "@ + first + seq!['-'] + last + seq!['/'] + size,
        !first.contains('-'),
        !first.contains('/'),
        !last.contains('/'),
        !first.contains(','),
        !last.contains(','),
        vocabulary::writes(size, total as int),
    ensures
        ({
            let result = resumable::range_of(header, total);
            let numbers = vocabulary::writes(first, start as int) && vocabulary::writes(
                last,
                end as int,
            );
            &&& last.contains('-') ==> result == Err::<ContentRange, RangeError>(
                RangeError::InvalidSyntax,
            )
            &&& !last.contains('-') && !(is_number(first) && is_number(last)) ==> result == Err::<
                ContentRange,
                RangeError,
            >(RangeError::InvalidNumber)
            &&& numbers && end < start ==> result == Err::<ContentRange, RangeError>(
                RangeError::Reversed,
            )
            &&& numbers && start <= end && end == u64::MAX ==> result == Err::<
                ContentRange,
                RangeError,
            >(RangeError::OffsetOverflow)
            &&& numbers && start <= end && total <= end < u64::MAX ==> result == Err::<
                ContentRange,
                RangeError,
            >(RangeError::OutsideDeclaredSize { end_exclusive: (end + 1) as u64, total })
            &&& numbers && start <= end < total ==> result == Ok::<ContentRange, RangeError>(
                ContentRange { start, end_exclusive: (end + 1) as u64, total },
            )
        }),
{
    let value = text::trim(header);
    let unit = "bytes "@;
    let bounds = first + seq!['-'] + last;
    let rest = bounds + seq!['/'] + size;
    reveal_strlit("*");
    assert("*"@ =~= seq!['*']);
    assert(value =~= unit + rest);
    assert(unit =~= value.subrange(0, unit.len() as int));
    assert(value.skip(unit.len() as int) =~= rest);
    assert forall|j: int| 0 <= j < bounds.len() implies bounds[j] != '/' && bounds[j] != ',' by {
        if j < first.len() {
            assert(first.contains(first[j]));
        } else if j > first.len() {
            assert(last.contains(last[j - first.len() - 1]));
        }
    }
    lemma_split(bounds, '/', size);
    lemma_split(first, '-', last);
    lemma_numbers(first);
    lemma_numbers(last);
    vocabulary::law_numerals(size, total);
    vocabulary::law_numerals(first, start);
    vocabulary::law_numerals(last, end);
    assert forall|j: int| 0 <= j < size.len() implies size[j] != '/' && size[j] != '*' by {
        assert('0' <= size[j] <= '9');
    }
    assert(bounds != "*"@) by {
        if bounds == "*"@ {
            assert(bounds[first.len() as int] == '-');
            assert(bounds[0] == '*');
        }
    }
    assert(size != "*"@) by {
        assert('0' <= size[0] <= '9');
    }
    if vocabulary::writes(last, end as int) {
        assert forall|j: int| 0 <= j < last.len() implies last[j] != '-' by {
            assert('0' <= last[j] <= '9');
        }
    }
}

/// A request without a range asks for the whole file. With one, the raw header
/// is read character by character, and is refused where a byte is neither
/// visible ASCII nor a space nor a tab.
pub proof fn law_requested_ranges(raw: Seq<u8>, size_bytes: u64, value: Seq<char>)
    requires
        value.len() == raw.len(),
        forall|i: int| 0 <= i < raw.len() ==> #[trigger] value[i] == raw[i] as char,
    ensures
        upload::range_asked(None, size_bytes) == Ok::<ContentRange, ApiError>(
            ContentRange { start: 0, end_exclusive: size_bytes, total: size_bytes },
        ),
        (exists|i: int|
            0 <= i < raw.len() && !(#[trigger] raw[i] == 9 || (32 <= raw[i] && raw[i] <= 126)))
            <==> upload::range_asked(Some(raw), size_bytes) == Err::<ContentRange, ApiError>(
            ApiError::InvalidRange(RangeProblem::NotAscii),
        ),
        (forall|i: int|
            0 <= i < raw.len() ==> #[trigger] raw[i] == 9 || (32 <= raw[i] && raw[i] <= 126))
            ==> match resumable::range_of(value, size_bytes) {
            Ok(range) => upload::range_asked(Some(raw), size_bytes) == Ok::<
                ContentRange,
                ApiError,
            >(range),
            Err(error) => upload::range_asked(Some(raw), size_bytes) == Err::<
                ContentRange,
                ApiError,
            >(ApiError::InvalidRange(RangeProblem::Header(error))),
        },
{
    if forall|i: int|
        0 <= i < raw.len() ==> #[trigger] raw[i] == 9 || (32 <= raw[i] && raw[i] <= 126) {
        assert forall|i: int| 0 <= i < raw.len() implies header::is_text_byte(#[trigger] raw[i]) by {
        }
        assert(header::text_of(raw)->0 =~= value);
    } else {
        let i = choose|i: int|
            0 <= i < raw.len() && !(#[trigger] raw[i] == 9 || (32 <= raw[i] && raw[i] <= 126));
        assert(!header::is_text_byte(raw[i]));
    }
}

/// The bytes of the range are already committed, and the chunk repeats them.
pub open spec fn repeats(upload: Upload, range: ContentRange, chunk: Seq<u8>) -> bool {
    &&& range.end_exclusive <= upload.bytes.len()
    &&& forall|i: int|
        range.start <= i < range.end_exclusive ==> #[trigger] upload.bytes[i] == chunk[i
            - range.start]
}

/// A chunk is accepted exactly where its range is of the declared size, it is as
/// long as its range, which this machine can address, and it either begins where the upload stands or repeats
/// what is committed. Every other chunk is refused with the first rule that it
/// breaks, and with the numbers that broke it.
pub proof fn law_accepted_chunks(upload: Upload, range: ContentRange, chunk: Seq<u8>)
    requires
        upload.is_valid(),
        range.is_valid(),
    ensures
        ({
            let held = upload.bytes.len();
            let span = range.end_exclusive - range.start;
            &&& range.total != upload.total ==> upload.refusal(range, chunk) == Some(
                UploadError::TotalChanged { expected: upload.total, actual: range.total },
            )
            &&& range.total == upload.total && span > usize::MAX ==> upload.refusal(range, chunk)
                == Some(UploadError::ChunkTooLarge)
            &&& range.total == upload.total && span <= usize::MAX && chunk.len() != span
                ==> upload.refusal(range, chunk) == Some(
                UploadError::BodyLength { expected: span as u64, actual: chunk.len() as u64 },
            )
            &&& range.total == upload.total && chunk.len() == span <= usize::MAX ==> {
                &&& range.start > held ==> upload.refusal(range, chunk) == Some(
                    UploadError::Gap { expected_start: held as u64, actual_start: range.start },
                )
                &&& range.start == held ==> upload.refusal(range, chunk) is None
                &&& range.start < held < range.end_exclusive ==> upload.refusal(range, chunk)
                    == Some(
                    UploadError::PartialOverlap {
                        committed: held as u64,
                        start: range.start,
                        end_exclusive: range.end_exclusive,
                    },
                )
                &&& range.start < held && repeats(upload, range, chunk) ==> upload.refusal(
                    range,
                    chunk,
                ) is None
                &&& range.start < held && range.end_exclusive <= held && !repeats(
                    upload,
                    range,
                    chunk,
                ) ==> upload.refusal(range, chunk) == Some(
                    UploadError::ConflictingReplay {
                        start: range.start,
                        end_exclusive: range.end_exclusive,
                    },
                )
            }
        }),
{
    if range.end_exclusive <= upload.bytes.len() && chunk.len() == range.end_exclusive
        - range.start {
        let held = upload.bytes.subrange(range.start as int, range.end_exclusive as int);
        if repeats(upload, range, chunk) {
            assert(held =~= chunk) by {
                assert forall|k: int| 0 <= k < chunk.len() implies held[k] == chunk[k] by {
                    assert(upload.bytes[k + range.start] == chunk[k + range.start - range.start]);
                }
            }
        }
        if held =~= chunk {
            assert forall|i: int| range.start <= i < range.end_exclusive implies #[trigger]
                upload.bytes[i] == chunk[i - range.start] by {
                assert(held[i - range.start] == upload.bytes[i]);
            }
        }
    }
}

/// Once a chunk is accepted, the bytes of its range are the chunk, every byte
/// committed before is as it was, and nothing else is committed. The uploader is
/// told how many bytes are committed, whether that is all of them, and whether
/// the chunk went back to committed ones.
pub proof fn law_chunk_effects(upload: Upload, range: ContentRange, chunk: Seq<u8>)
    requires
        upload.is_valid(),
        range.is_valid(),
        upload.refusal(range, chunk) is None,
    ensures
        ({
            let after = upload.committed(range, chunk);
            let outcome = upload.outcome(range, chunk);
            &&& after.total == upload.total
            &&& after.bytes.len() == if range.end_exclusive > upload.bytes.len() {
                range.end_exclusive as int
            } else {
                upload.bytes.len() as int
            }
            &&& forall|i: int|
                0 <= i < upload.bytes.len() ==> #[trigger] after.bytes[i] == upload.bytes[i]
            &&& forall|i: int|
                range.start <= i < range.end_exclusive ==> #[trigger] after.bytes[i] == chunk[i
                    - range.start]
            &&& outcome.offset == after.bytes.len()
            &&& outcome.complete <==> after.bytes.len() == upload.total
            &&& outcome.replayed <==> range.start < upload.bytes.len()
            &&& after.is_complete() <==> after.bytes.len() == after.total
        }),
{
    let after = upload.committed(range, chunk);
    if range.start < upload.bytes.len() {
        let held = upload.bytes.subrange(range.start as int, range.end_exclusive as int);
        assert forall|i: int| range.start <= i < range.end_exclusive implies #[trigger]
            after.bytes[i] == chunk[i - range.start] by {
            assert(held[i - range.start] == upload.bytes[i]);
        }
    }
}

/// An upload is complete when every declared byte is committed, and may hold no
/// more than that.
pub proof fn law_completeness(upload: Upload, range: ContentRange)
    ensures
        upload.is_complete() <==> upload.bytes.len() == upload.total,
        upload.is_valid() <==> upload.bytes.len() <= upload.total,
        range.is_valid() <==> range.start <= range.end_exclusive && range.end_exclusive
            <= range.total,
{
}

/// A body is awaited in the length of its range, and refused where it is over
/// before that.
pub proof fn law_awaited_bodies(pending: PendingModel, count: int)
    ensures
        pending.expected() == pending.range.end_exclusive - pending.range.start,
        pending.is_valid() ==> pending.range.start <= pending.range.end_exclusive
            <= pending.range.total && pending.body.len() <= pending.range.end_exclusive
            - pending.range.start,
        pending.length_refusal() is None <==> pending.body.len() == pending.range.end_exclusive
            - pending.range.start,
        pending.is_valid() && pending.body.len() != pending.range.end_exclusive
            - pending.range.start ==> pending.length_refusal() == Some(
            ApiError::InvalidRange(
                (RangeProblem::BodyLength {
                    received: pending.body.len() as u64,
                    required: (pending.range.end_exclusive - pending.range.start) as u64,
                }),
            ),
        ),
        pending.may_receive(count) <==> pending.body.len() + count > pending.range.end_exclusive
            - pending.range.start || pending.body.len() + count <= isize::MAX / 2,
{
}

} // verus!
