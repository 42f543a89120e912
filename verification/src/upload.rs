//! An upload request between its head and its last byte.
use bytes::BytesMut;
use vstd::prelude::*;
use vstd::string::*;

use crate::capability;
use crate::header;
use crate::problem::{ApiError, RangeProblem};
use crate::resumable;
use crate::resumable::{AppendOutcome, ContentRange};
use crate::text;

verus! {

/// The most memory that a request may reserve ahead of its body.
pub const MAX_CHUNK_PREALLOCATE_BYTES: usize = 8_388_608;

#[verifier::external_type_specification]
#[verifier::external_body]
pub struct ExBytesMut(BytesMut);

/// The bytes that a buffer holds, in order.
pub uninterp spec fn buffer_bytes(buffer: BytesMut) -> Seq<u8>;

/// `BytesMut::with_capacity`: an empty buffer with room set aside.
#[verifier::external_body]
fn buffer_with_capacity(capacity: usize) -> (buffer: BytesMut)
    requires
        capacity <= isize::MAX,
    ensures
        buffer_bytes(buffer) == Seq::<u8>::empty(),
{
    BytesMut::with_capacity(capacity)
}

/// `BytesMut::len`: the number of bytes in the buffer.
#[verifier::external_body]
fn buffer_len(buffer: &BytesMut) -> (count: usize)
    ensures
        count == buffer_bytes(*buffer).len(),
{
    buffer.len()
}

/// `BytesMut::extend_from_slice`: the buffer grows by the slice. A buffer that
/// has to grow at most doubles, and no buffer may exceed `isize::MAX` bytes.
#[verifier::external_body]
fn buffer_extend(buffer: &mut BytesMut, chunk: &[u8])
    requires
        buffer_bytes(*old(buffer)).len() + chunk@.len() <= isize::MAX / 2,
    ensures
        buffer_bytes(*final(buffer)) == buffer_bytes(*old(buffer)) + chunk@,
{
    buffer.extend_from_slice(chunk)
}

/// `BytesMut::as_ref`: the bytes of the buffer as a slice.
#[verifier::external_body]
fn buffer_slice(buffer: &BytesMut) -> (bytes: &[u8])
    ensures
        bytes@ == buffer_bytes(*buffer),
{
    buffer.as_ref()
}

/// The range that an upload request asks for: without a header, the whole file.
pub open spec fn range_asked(content_range: Option<Seq<u8>>, size_bytes: u64) -> Result<
    ContentRange,
    ApiError,
> {
    match content_range {
        None => Ok(ContentRange { start: 0, end_exclusive: size_bytes, total: size_bytes }),
        Some(raw) => match header::text_of(raw) {
            None => Err(ApiError::InvalidRange(RangeProblem::NotAscii)),
            Some(value) => match resumable::range_of(value, size_bytes) {
                Ok(range) => Ok(range),
                Err(error) => Err(ApiError::InvalidRange(RangeProblem::Header(error))),
            },
        },
    }
}

/// The range that an upload request asks for, from its raw `Content-Range`
/// header.
pub fn requested_range(content_range: Option<&[u8]>, size_bytes: u64) -> (result: Result<
    ContentRange,
    ApiError,
>)
    ensures
        result == range_asked(capability::bytes_of(content_range), size_bytes),
        result matches Ok(range) ==> range.is_valid() && range.total == size_bytes,
{
    match content_range {
        Some(raw) => {
            let value: String = match header::header_text(raw) {
                Some(value) => value,
                None => {
                    return Err(ApiError::InvalidRange(RangeProblem::NotAscii));
                },
            };
            match ContentRange::parse(value.as_str(), size_bytes) {
                Ok(range) => Ok(range),
                Err(error) => Err(ApiError::InvalidRange(RangeProblem::Header(error))),
            }
        },
        None => Ok(ContentRange::whole(size_bytes)),
    }
}

/// An admitted upload request whose body is still arriving.
pub struct PendingUpload {
    tunnel_id: u128,
    file_id: u128,
    supplied: [u8; 32],
    range: ContentRange,
    body: BytesMut,
}

/// What a [`PendingUpload`] stands for.
#[verifier::ext_equal]
pub struct PendingModel {
    pub tunnel_id: u128,
    pub file_id: u128,
    /// The digest of the capability that the request presented.
    pub supplied: Seq<u8>,
    pub range: ContentRange,
    /// What has arrived of the body.
    pub body: Seq<u8>,
}

impl View for PendingUpload {
    type V = PendingModel;

    closed spec fn view(&self) -> PendingModel {
        PendingModel {
            tunnel_id: self.tunnel_id,
            file_id: self.file_id,
            supplied: self.supplied@,
            range: self.range,
            body: buffer_bytes(self.body),
        }
    }
}

impl PendingModel {
    /// The number of bytes that the body must have.
    pub open spec fn expected(self) -> int {
        self.range.end_exclusive - self.range.start
    }

    /// The body has not outgrown the range, and this machine can hold it.
    pub open spec fn is_valid(self) -> bool {
        self.range.is_valid() && self.body.len() <= self.expected() <= usize::MAX
    }

    /// The body and `count` more bytes fit in a buffer that may double.
    pub open spec fn has_room(self, count: int) -> bool {
        self.body.len() + count <= isize::MAX / 2
    }

    /// A piece of `count` bytes is too long for the range, or can be buffered.
    pub open spec fn may_receive(self, count: int) -> bool {
        self.body.len() + count <= self.expected() ==> self.has_room(count)
    }

    /// The refusal of a body that is over before the range is.
    pub open spec fn length_refusal(self) -> Option<ApiError> {
        if self.body.len() == self.expected() {
            None
        } else {
            Some(
                ApiError::InvalidRange(
                    RangeProblem::BodyLength {
                        received: self.body.len() as u64,
                        required: self.expected() as u64,
                    },
                ),
            )
        }
    }
}

/// The memory to reserve for a body of `expected` bytes: all of it, but no more
/// than 8 MiB.
fn room_ahead(expected: usize) -> (count: usize)
    ensures
        count == if expected <= 8_388_608 {
            expected
        } else {
            8_388_608
        },
{
    if expected > MAX_CHUNK_PREALLOCATE_BYTES {
        MAX_CHUNK_PREALLOCATE_BYTES
    } else {
        expected
    }
}

impl PendingUpload {
    /// Waits for the body of an admitted request. A range that is longer than
    /// anything this machine can address is too large.
    pub(crate) fn new(
        tunnel_id: u128,
        file_id: u128,
        supplied: [u8; 32],
        range: ContentRange,
    ) -> (result: Result<PendingUpload, ApiError>)
        requires
            range.is_valid(),
        ensures
            if range.end_exclusive - range.start > usize::MAX {
                result matches Err(error) && error == ApiError::TooLarge
            } else {
                result matches Ok(pending) && pending@.is_valid() && pending@ == (PendingModel {
                    tunnel_id,
                    file_id,
                    supplied: supplied@,
                    range,
                    body: Seq::empty(),
                })
            },
    {
        let expected: u64 = range.len();
        if expected > usize::MAX as u64 {
            return Err(ApiError::TooLarge);
        }
        Ok(
            PendingUpload {
                tunnel_id,
                file_id,
                supplied,
                range,
                body: buffer_with_capacity(room_ahead(expected as usize)),
            },
        )
    }

    /// The tunnel that the request addresses.
    pub fn tunnel_id(&self) -> (tunnel_id: u128)
        ensures
            tunnel_id == self@.tunnel_id,
    {
        self.tunnel_id
    }

    /// Whether a piece of `count` bytes can be taken in or refused: it cannot
    /// where it fits the range but not the memory of this machine.
    pub fn may_receive(&self, count: usize) -> (answer: bool)
        requires
            self@.is_valid(),
        ensures
            answer == self@.may_receive(count as int),
    {
        let most: usize = (isize::MAX / 2) as usize;
        let expected: usize = self.range.len() as usize;
        let received: usize = buffer_len(&self.body);
        count > expected - received || (received <= most && count <= most - received)
    }

    /// Takes in the next piece of the body. A body that outgrows the range is
    /// refused at the piece that does so.
    pub fn receive(&mut self, chunk: &[u8]) -> (result: Result<(), ApiError>)
        requires
            old(self)@.is_valid(),
            old(self)@.may_receive(chunk@.len() as int),
        ensures
            final(self)@.is_valid(),
            if old(self)@.body.len() + chunk@.len() > old(self)@.expected() {
                &&& result == Err::<(), ApiError>(
                    ApiError::InvalidRange(
                        RangeProblem::BodyExceeds { limit: old(self)@.expected() as u64 },
                    ),
                )
                &&& final(self)@ == old(self)@
            } else {
                &&& result is Ok
                &&& final(self)@ == (PendingModel {
                    body: old(self)@.body + chunk@,
                    ..old(self)@
                })
            },
    {
        let expected: u64 = self.range.len();
        let received: usize = buffer_len(&self.body);
        if chunk.len() > expected as usize - received {
            return Err(ApiError::InvalidRange(RangeProblem::BodyExceeds { limit: expected }));
        }
        buffer_extend(&mut self.body, chunk);
        Ok(())
    }

    /// Whether the body is as long as the range.
    pub(crate) fn check_length(&self) -> (result: Result<(), ApiError>)
        requires
            self@.is_valid(),
        ensures
            result == match self@.length_refusal() {
                Some(error) => Err(error),
                None => Ok(()),
            },
    {
        let received: usize = buffer_len(&self.body);
        let required: u64 = self.range.len();
        if received != required as usize {
            return Err(
                ApiError::InvalidRange(
                    RangeProblem::BodyLength { received: received as u64, required },
                ),
            );
        }
        Ok(())
    }

    pub(crate) fn file_id(&self) -> (file_id: u128)
        ensures
            file_id == self@.file_id,
    {
        self.file_id
    }

    pub(crate) fn supplied(&self) -> (supplied: &[u8; 32])
        ensures
            supplied@ == self@.supplied,
    {
        &self.supplied
    }

    pub(crate) fn range(&self) -> (range: ContentRange)
        ensures
            range == self@.range,
    {
        self.range
    }

    pub(crate) fn body(&self) -> (body: &[u8])
        ensures
            body@ == self@.body,
    {
        buffer_slice(&self.body)
    }
}

/// The answer to an upload request or a probe.
#[derive(Debug, Clone, PartialEq, Eq)]
pub struct UploadResponse {
    pub status: u16,
    /// The value of the `Upload-Offset` header.
    pub upload_offset: String,
    /// The value of the `Upload-Complete` header.
    pub upload_complete: &'static str,
}

/// `response` tells the uploader where to resume.
pub open spec fn reports(response: UploadResponse, outcome: AppendOutcome) -> bool {
    &&& response.status == if outcome.complete {
        204u16
    } else {
        308u16
    }
    &&& response.upload_offset@ == text::decimal(outcome.offset as nat)
    &&& response.upload_complete@ == if outcome.complete {
        "true"@
    } else {
        "false"@
    }
}

/// The answer that tells the uploader where to resume.
pub fn upload_response(outcome: AppendOutcome) -> (response: UploadResponse)
    ensures
        reports(response, outcome),
{
    UploadResponse {
        status: if outcome.complete {
            204
        } else {
            308
        },
        upload_offset: text::decimal_text(outcome.offset),
        upload_complete: if outcome.complete {
            "true"
        } else {
            "false"
        },
    }
}

} // verus!
