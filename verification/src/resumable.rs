//! Strict sequential `Content-Range` parsing and resumable upload state.
//!
//! File Tunnel accepts chunks in order. Exact retries of an already committed
//! chunk are idempotent when their bytes match; gaps, partial overlaps, total
//! changes, and conflicting retries fail closed.
use vstd::prelude::*;
use vstd::slice::slice_subrange;
use vstd::string::*;

use crate::text;

verus! {

/// A validated byte range with an exclusive end offset.
#[derive(Debug, Clone, Copy, Eq, PartialEq, Structural)]
pub struct ContentRange {
    /// First byte in the request body.
    pub start: u64,
    /// Offset immediately after the final byte in the request body.
    pub end_exclusive: u64,
    /// Declared complete object size.
    pub total: u64,
}

/// Strict `Content-Range` parse failure.
#[derive(Debug, Clone, Copy, Eq, PartialEq, Structural)]
pub enum RangeError {
    InvalidUnit,
    InvalidSyntax,
    InvalidNumber,
    UnsupportedWildcard,
    Reversed,
    OffsetOverflow,
    TotalMismatch { expected: u64, actual: u64 },
    OutsideDeclaredSize { end_exclusive: u64, total: u64 },
}

impl ContentRange {
    /// The range lies within the object it belongs to.
    pub open spec fn is_valid(self) -> bool {
        self.start <= self.end_exclusive <= self.total
    }

    /// The header value that denotes this range; only a range with at least
    /// one byte has one.
    pub open spec fn header_value(self) -> Seq<char> {
        "bytes "@ + text::decimal(self.start as nat) + seq!['-'] + text::decimal(
            (self.end_exclusive - 1) as nat,
        ) + seq!['/'] + text::decimal(self.total as nat)
    }
}

/// The range `FIRST-LAST` of an object of `total` bytes.
pub open spec fn bounds_of(bounds: Seq<char>, total: u64) -> Result<ContentRange, RangeError> {
    match text::split_once(bounds, '-') {
        None => Err(RangeError::InvalidSyntax),
        Some((first, last)) => if last.contains('-') {
            Err(RangeError::InvalidSyntax)
        } else {
            match (text::number(first), text::number(last)) {
                (Some(start), Some(end_inclusive)) => if end_inclusive < start {
                    Err(RangeError::Reversed)
                } else if end_inclusive == u64::MAX {
                    Err(RangeError::OffsetOverflow)
                } else if end_inclusive + 1 > total {
                    Err(
                        RangeError::OutsideDeclaredSize {
                            end_exclusive: (end_inclusive + 1) as u64,
                            total,
                        },
                    )
                } else {
                    Ok(ContentRange { start, end_exclusive: (end_inclusive + 1) as u64, total })
                },
                _ => Err(RangeError::InvalidNumber),
            }
        },
    }
}

/// What the header value `text` says of an object declared with
/// `expected_total` bytes.
pub open spec fn range_of(text: Seq<char>, expected_total: u64) -> Result<
    ContentRange,
    RangeError,
> {
    match text::strip_prefix(text::trim(text), "bytes "@) {
        None => Err(RangeError::InvalidUnit),
        Some(remainder) => match text::split_once(remainder, '/') {
            None => Err(RangeError::InvalidSyntax),
            Some((bounds, total)) => if total.contains('/') || bounds.contains(',') || total
                == "*"@ || bounds == "*"@ {
                Err(RangeError::UnsupportedWildcard)
            } else {
                match text::number(total) {
                    None => Err(RangeError::InvalidNumber),
                    Some(actual) => if actual != expected_total {
                        Err(RangeError::TotalMismatch { expected: expected_total, actual })
                    } else {
                        bounds_of(bounds, actual)
                    },
                }
            },
        },
    }
}

impl ContentRange {
    /// Creates the implicit range used by a legacy single-request upload.
    #[must_use]
    pub fn whole(total: u64) -> (range: Self)
        ensures
            range == (ContentRange { start: 0, end_exclusive: total, total }),
    {
        Self { start: 0, end_exclusive: total, total }
    }

    /// Parses `Content-Range: bytes START-END/TOTAL` for a previously declared
    /// object size.
    ///
    /// Wildcards and unknown totals are deliberately rejected because the file
    /// declaration already supplies the authoritative size.
    pub fn parse(value: &str, expected_total: u64) -> (result: Result<Self, RangeError>)
        ensures
            result == range_of(value@, expected_total),
    {
        let chars: Vec<char> = text::chars_of(value);
        let value: &[char] = text::trim_chars(chars.as_slice());
        let unit: Vec<char> = text::chars_of("bytes ");
        if !text::starts_with_chars(value, unit.as_slice()) {
            return Err(RangeError::InvalidUnit);
        }
        let remainder: &[char] = slice_subrange(value, unit.len(), value.len());
        assert(remainder@ =~= value@.skip(unit@.len() as int));
        let (bounds, total) = match text::split_once_chars(remainder, '/') {
            Some(parts) => parts,
            None => {
                return Err(RangeError::InvalidSyntax);
            },
        };
        let star: Vec<char> = text::chars_of("*");
        if text::contains_char(total, '/') || text::contains_char(bounds, ',') || text::same_chars(
            total,
            star.as_slice(),
        ) || text::same_chars(bounds, star.as_slice()) {
            return Err(RangeError::UnsupportedWildcard);
        }
        let total: u64 = match text::parse_u64(total) {
            Some(total) => total,
            None => {
                return Err(RangeError::InvalidNumber);
            },
        };
        if total != expected_total {
            return Err(RangeError::TotalMismatch { expected: expected_total, actual: total });
        }
        let (first, last) = match text::split_once_chars(bounds, '-') {
            Some(parts) => parts,
            None => {
                return Err(RangeError::InvalidSyntax);
            },
        };
        if text::contains_char(last, '-') {
            return Err(RangeError::InvalidSyntax);
        }
        let start: u64 = match text::parse_u64(first) {
            Some(start) => start,
            None => {
                return Err(RangeError::InvalidNumber);
            },
        };
        let end_inclusive: u64 = match text::parse_u64(last) {
            Some(end_inclusive) => end_inclusive,
            None => {
                return Err(RangeError::InvalidNumber);
            },
        };
        if end_inclusive < start {
            return Err(RangeError::Reversed);
        }
        let end_exclusive: u64 = match end_inclusive.checked_add(1) {
            Some(end_exclusive) => end_exclusive,
            None => {
                return Err(RangeError::OffsetOverflow);
            },
        };
        if end_exclusive > total {
            return Err(RangeError::OutsideDeclaredSize { end_exclusive, total });
        }
        Ok(Self { start, end_exclusive, total })
    }

    /// Number of bytes required in the request body.
    #[must_use]
    pub fn len(self) -> (count: u64)
        requires
            self.start <= self.end_exclusive,
        ensures
            count == self.end_exclusive - self.start,
    {
        self.end_exclusive - self.start
    }

    /// Reports whether this range carries no bytes.
    #[must_use]
    pub fn is_empty(self) -> (answer: bool)
        requires
            self.start <= self.end_exclusive,
        ensures
            answer == (self.start == self.end_exclusive),
    {
        self.len() == 0
    }
}

impl RangeError {
    /// The message of this failure.
    pub open spec fn message_text(self) -> Seq<char> {
        match self {
            RangeError::InvalidUnit => "Content-Range must use the `bytes` unit"@,
            RangeError::InvalidSyntax => "Content-Range must use `bytes START-END/TOTAL` syntax"@,
            RangeError::InvalidNumber =>
                "Content-Range offsets must be unsigned decimal integers"@,
            RangeError::UnsupportedWildcard =>
                "Content-Range wildcards and multipart ranges are unsupported"@,
            RangeError::Reversed => "Content-Range end precedes its start"@,
            RangeError::OffsetOverflow => "Content-Range end offset overflowed"@,
            RangeError::TotalMismatch { expected, actual } => "Content-Range total "@ + text::decimal(
                actual as nat,
            ) + " does not match declared size "@ + text::decimal(expected as nat),
            RangeError::OutsideDeclaredSize { end_exclusive, total } => "Content-Range ends at "@
                + text::decimal(end_exclusive as nat) + ", beyond declared size "@ + text::decimal(
                total as nat,
            ),
        }
    }

    /// The message of this failure, for a person to read.
    pub fn message(&self) -> (text: String)
        ensures
            text@ == self.message_text(),
    {
        match *self {
            RangeError::InvalidUnit => "Content-Range must use the `bytes` unit".to_owned(),
            RangeError::InvalidSyntax =>
                "Content-Range must use `bytes START-END/TOTAL` syntax".to_owned(),
            RangeError::InvalidNumber =>
                "Content-Range offsets must be unsigned decimal integers".to_owned(),
            RangeError::UnsupportedWildcard =>
                "Content-Range wildcards and multipart ranges are unsupported".to_owned(),
            RangeError::Reversed => "Content-Range end precedes its start".to_owned(),
            RangeError::OffsetOverflow => "Content-Range end offset overflowed".to_owned(),
            RangeError::TotalMismatch { expected, actual } => {
                let mut text: String = "Content-Range total ".to_owned();
                text::push_decimal(&mut text, actual);
                text.append(" does not match declared size ");
                text::push_decimal(&mut text, expected);
                text
            },
            RangeError::OutsideDeclaredSize { end_exclusive, total } => {
                let mut text: String = "Content-Range ends at ".to_owned();
                text::push_decimal(&mut text, end_exclusive);
                text.append(", beyond declared size ");
                text::push_decimal(&mut text, total);
                text
            },
        }
    }
}

/// Result of committing one request body to an upload buffer.
#[derive(Debug, Clone, Copy, Eq, PartialEq, Structural)]
pub struct AppendOutcome {
    /// Next byte offset expected by the server.
    pub offset: u64,
    /// Whether all declared bytes are present.
    pub complete: bool,
    /// Whether this was an exact idempotent replay rather than new progress.
    pub replayed: bool,
}

/// Sequential upload state-transition failure.
#[derive(Debug, Clone, Copy, Eq, PartialEq, Structural)]
pub enum UploadError {
    TotalChanged { expected: u64, actual: u64 },
    BodyLength { expected: u64, actual: u64 },
    Gap { expected_start: u64, actual_start: u64 },
    PartialOverlap { committed: u64, start: u64, end_exclusive: u64 },
    ConflictingReplay { start: u64, end_exclusive: u64 },
    ChunkTooLarge,
}

impl UploadError {
    /// The message of this failure.
    pub open spec fn message_text(self) -> Seq<char> {
        match self {
            UploadError::TotalChanged { expected, actual } => "upload total changed from "@
                + text::decimal(expected as nat) + " to "@ + text::decimal(actual as nat),
            UploadError::BodyLength { expected, actual } => "request body contains "@ + text::decimal(
                actual as nat,
            ) + " bytes; Content-Range requires "@ + text::decimal(expected as nat),
            UploadError::Gap { expected_start, actual_start } =>
                "upload gap: server expects offset "@ + text::decimal(expected_start as nat)
                + ", request begins at "@ + text::decimal(actual_start as nat),
            UploadError::PartialOverlap { committed, start, end_exclusive } => "range "@ + text::decimal(
                start as nat,
            ) + ".."@ + text::decimal(end_exclusive as nat) + " partially overlaps committed offset "@
                + text::decimal(committed as nat),
            UploadError::ConflictingReplay { start, end_exclusive } => "replayed range "@
                + text::decimal(start as nat) + ".."@ + text::decimal(end_exclusive as nat)
                + " does not match committed bytes"@,
            UploadError::ChunkTooLarge =>
                "range length cannot be represented by this server"@,
        }
    }

    /// The message of this failure, for a person to read.
    pub fn message(&self) -> (text: String)
        ensures
            text@ == self.message_text(),
    {
        match *self {
            UploadError::TotalChanged { expected, actual } => {
                let mut text: String = "upload total changed from ".to_owned();
                text::push_decimal(&mut text, expected);
                text.append(" to ");
                text::push_decimal(&mut text, actual);
                text
            },
            UploadError::BodyLength { expected, actual } => {
                let mut text: String = "request body contains ".to_owned();
                text::push_decimal(&mut text, actual);
                text.append(" bytes; Content-Range requires ");
                text::push_decimal(&mut text, expected);
                text
            },
            UploadError::Gap { expected_start, actual_start } => {
                let mut text: String = "upload gap: server expects offset ".to_owned();
                text::push_decimal(&mut text, expected_start);
                text.append(", request begins at ");
                text::push_decimal(&mut text, actual_start);
                text
            },
            UploadError::PartialOverlap { committed, start, end_exclusive } => {
                let mut text: String = "range ".to_owned();
                text::push_decimal(&mut text, start);
                text.append("..");
                text::push_decimal(&mut text, end_exclusive);
                text.append(" partially overlaps committed offset ");
                text::push_decimal(&mut text, committed);
                text
            },
            UploadError::ConflictingReplay { start, end_exclusive } => {
                let mut text: String = "replayed range ".to_owned();
                text::push_decimal(&mut text, start);
                text.append("..");
                text::push_decimal(&mut text, end_exclusive);
                text.append(" does not match committed bytes");
                text
            },
            UploadError::ChunkTooLarge =>
                "range length cannot be represented by this server".to_owned(),
        }
    }
}

/// In-memory sequential upload state.
#[derive(Debug, Clone, Eq, PartialEq)]
pub struct UploadBuffer {
    total: u64,
    bytes: Vec<u8>,
}

/// What an [`UploadBuffer`] stands for: the declared size and the bytes
/// committed so far.
#[verifier::ext_equal]
pub struct Upload {
    pub total: u64,
    pub bytes: Seq<u8>,
}

impl View for UploadBuffer {
    type V = Upload;

    closed spec fn view(&self) -> Upload {
        Upload { total: self.total, bytes: self.bytes@ }
    }
}

impl Upload {
    /// No more bytes are committed than were declared.
    pub open spec fn is_valid(self) -> bool {
        self.bytes.len() <= self.total
    }

    /// Every declared byte is committed.
    pub open spec fn is_complete(self) -> bool {
        self.bytes.len() == self.total
    }

    /// A range for this object is not reversed, and one that continues the
    /// upload ends within the declared size.
    pub open spec fn admits(self, range: ContentRange, chunk: Seq<u8>) -> bool {
        range.total == self.total ==> {
            &&& range.start <= range.end_exclusive
            &&& range.start == self.bytes.len() && chunk.len() == range.end_exclusive - range.start
                ==> range.end_exclusive <= range.total
        }
    }

    /// The range goes back to bytes that are already committed.
    pub open spec fn is_replay(self, range: ContentRange) -> bool {
        range.start < self.bytes.len()
    }

    /// Why `chunk` cannot be committed as `range`, if it cannot.
    pub open spec fn refusal(self, range: ContentRange, chunk: Seq<u8>) -> Option<UploadError> {
        let span = range.end_exclusive - range.start;
        let offset = self.bytes.len();
        if range.total != self.total {
            Some(UploadError::TotalChanged { expected: self.total, actual: range.total })
        } else if span > usize::MAX {
            Some(UploadError::ChunkTooLarge)
        } else if chunk.len() != span {
            Some(UploadError::BodyLength { expected: span as u64, actual: chunk.len() as u64 })
        } else if range.start > offset {
            Some(UploadError::Gap { expected_start: offset as u64, actual_start: range.start })
        } else if self.is_replay(range) && range.end_exclusive > offset {
            Some(
                UploadError::PartialOverlap {
                    committed: offset as u64,
                    start: range.start,
                    end_exclusive: range.end_exclusive,
                },
            )
        } else if self.is_replay(range) && !(self.bytes.subrange(
            range.start as int,
            range.end_exclusive as int,
        ) =~= chunk) {
            Some(
                UploadError::ConflictingReplay {
                    start: range.start,
                    end_exclusive: range.end_exclusive,
                },
            )
        } else {
            None
        }
    }

    /// The upload after `chunk` was accepted as `range`.
    pub open spec fn committed(self, range: ContentRange, chunk: Seq<u8>) -> Self {
        if self.is_replay(range) {
            self
        } else {
            Upload { bytes: self.bytes + chunk, ..self }
        }
    }

    /// What the uploader is told once `chunk` was accepted as `range`.
    pub open spec fn outcome(self, range: ContentRange, chunk: Seq<u8>) -> AppendOutcome {
        AppendOutcome {
            offset: self.committed(range, chunk).bytes.len() as u64,
            complete: self.committed(range, chunk).is_complete(),
            replayed: self.is_replay(range),
        }
    }
}

/// Whether the two byte strings are the same.
fn same_bytes(left: &[u8], right: &[u8]) -> (answer: bool)
    ensures
        answer == (left@ == right@),
{
    if left.len() != right.len() {
        return false;
    }
    let mut i: usize = 0;
    while i < left.len()
        invariant
            i <= left@.len() == right@.len(),
            forall|j: int| 0 <= j < i ==> left@[j] == right@[j],
        decreases left@.len() - i,
    {
        if left[i] != right[i] {
            return false;
        }
        i = i + 1;
    }
    assert(left@ =~= right@);
    true
}

impl UploadBuffer {
    /// Starts an empty upload for a declared object size.
    #[must_use]
    pub fn new(total: u64) -> (upload: Self)
        ensures
            upload@ == (Upload { total, bytes: Seq::empty() }),
    {
        Self { total, bytes: Vec::new() }
    }

    /// Returns the declared complete size.
    #[must_use]
    pub fn total(&self) -> (total: u64)
        ensures
            total == self@.total,
    {
        self.total
    }

    /// Returns the next byte offset expected by the server.
    #[must_use]
    pub fn offset(&self) -> (offset: u64)
        ensures
            offset == self@.bytes.len(),
    {
        self.bytes.len() as u64
    }

    /// Reports whether every declared byte has been committed.
    #[must_use]
    pub fn is_complete(&self) -> (answer: bool)
        ensures
            answer == self@.is_complete(),
    {
        self.offset() == self.total
    }

    /// Returns committed bytes in wire order.
    #[must_use]
    pub fn as_slice(&self) -> (bytes: &[u8])
        ensures
            bytes@ == self@.bytes,
    {
        self.bytes.as_slice()
    }

    /// Commits one validated request body.
    ///
    /// New data must begin exactly at [`Self::offset`]. A range fully contained
    /// in committed data is accepted only when every replayed byte matches.
    pub fn append(&mut self, range: ContentRange, chunk: &[u8]) -> (result: Result<
        AppendOutcome,
        UploadError,
    >)
        requires
            old(self)@.is_valid(),
            old(self)@.admits(range, chunk@),
        ensures
            match old(self)@.refusal(range, chunk@) {
                Some(error) => result == Err::<AppendOutcome, UploadError>(error) && *final(self)
                    == *old(self),
                None => result == Ok::<AppendOutcome, UploadError>(
                    old(self)@.outcome(range, chunk@),
                ) && final(self)@ == old(self)@.committed(range, chunk@),
            },
            final(self)@.is_valid(),
    {
        if range.total != self.total {
            return Err(
                UploadError::TotalChanged { expected: self.total, actual: range.total },
            );
        }
        let span: u64 = range.len();
        if span > usize::MAX as u64 {
            return Err(UploadError::ChunkTooLarge);
        }
        let expected_len: usize = span as usize;
        if chunk.len() != expected_len {
            return Err(UploadError::BodyLength { expected: span, actual: chunk.len() as u64 });
        }
        let offset: u64 = self.offset();
        if range.start > offset {
            return Err(UploadError::Gap { expected_start: offset, actual_start: range.start });
        }
        if range.start < offset {
            if range.end_exclusive > offset {
                return Err(
                    UploadError::PartialOverlap {
                        committed: offset,
                        start: range.start,
                        end_exclusive: range.end_exclusive,
                    },
                );
            }
            assert(range.end_exclusive <= self.bytes.len());
            let start: usize = range.start as usize;
            let end: usize = range.end_exclusive as usize;
            if !same_bytes(slice_subrange(self.bytes.as_slice(), start, end), chunk) {
                return Err(
                    UploadError::ConflictingReplay {
                        start: range.start,
                        end_exclusive: range.end_exclusive,
                    },
                );
            }
            return Ok(AppendOutcome { offset, complete: self.is_complete(), replayed: true });
        }
        self.bytes.extend_from_slice(chunk);
        assert(self.bytes@ =~= old(self).bytes@ + chunk@);
        let offset: u64 = self.offset();
        Ok(AppendOutcome { offset, complete: self.is_complete(), replayed: false })
    }
}

} // verus!
