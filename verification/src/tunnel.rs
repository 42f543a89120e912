//! One tunnel: its capabilities, files, tickets and phases.
use std::collections::HashMap;

use vstd::prelude::*;
use vstd::string::*;

use crate::capability;
use crate::declaration;
use crate::declaration::{DeclarationPolicy, DeclarationRejection, FileDeclaration};
use crate::problem;
use crate::problem::{ApiError, InvalidRequest};
use crate::protocol;
use crate::protocol::{Operation, Principal};
use crate::resumable::{AppendOutcome, ContentRange, Upload, UploadBuffer};
use crate::time::Timestamp;
use crate::{DeclareFileRequest, FileDescriptor, FileStatus, TunnelEvent, TunnelStatus};

verus! {

/// The identifier and instant of one event.
#[derive(Debug, Clone, Copy, PartialEq, Eq, Structural)]
pub struct EventStamp {
    pub event_id: u128,
    pub occurred_at: Timestamp,
}

/// A declared file and what has arrived of it.
pub struct StoredFile {
    descriptor: FileDescriptor,
    upload: UploadBuffer,
    uploaded: bool,
}

/// What a [`StoredFile`] stands for.
#[verifier::ext_equal]
pub struct FileModel {
    pub descriptor: FileDescriptor,
    pub upload: Upload,
    /// An upload of the file, or of a part of it, was accepted before.
    pub uploaded: bool,
}

impl View for StoredFile {
    type V = FileModel;

    closed spec fn view(&self) -> FileModel {
        FileModel {
            descriptor: self.descriptor,
            upload: self.upload@,
            uploaded: self.uploaded,
        }
    }
}

impl FileModel {
    /// The descriptor tells the truth about the bytes.
    pub open spec fn is_consistent(self) -> bool {
        &&& self.upload.is_valid()
        &&& self.upload.total == self.descriptor.size_bytes
        &&& self.upload.bytes.len() == self.descriptor.bytes_transferred
        &&& self.upload.bytes.len() > 0 ==> self.uploaded
        &&& match self.descriptor.status {
            FileStatus::Declared => !self.uploaded,
            FileStatus::Uploading => self.uploaded && !self.upload.is_complete(),
            FileStatus::Available => self.uploaded && self.upload.is_complete(),
            FileStatus::Downloaded => self.upload.is_complete(),
            FileStatus::Rejected | FileStatus::Cancelled => false,
        }
    }

    /// The range brings nothing new: it goes back to bytes that are already
    /// committed, or carries no bytes for a file of which an upload was accepted
    /// before.
    pub open spec fn is_retry(self, range: ContentRange) -> bool {
        ||| self.upload.is_replay(range)
        ||| range.start == range.end_exclusive && self.uploaded
    }

    /// The file after `chunk` was accepted as `range`.
    pub open spec fn committed(self, range: ContentRange, chunk: Seq<u8>) -> Self {
        if self.is_retry(range) {
            self
        } else {
            let outcome = self.upload.outcome(range, chunk);
            FileModel {
                upload: self.upload.committed(range, chunk),
                descriptor: FileDescriptor {
                    bytes_transferred: outcome.offset,
                    status: if outcome.complete {
                        FileStatus::Available
                    } else {
                        FileStatus::Uploading
                    },
                    ..self.descriptor
                },
                uploaded: true,
            }
        }
    }

    /// The file once the desktop has fetched it.
    pub open spec fn downloaded(self) -> Self {
        FileModel {
            descriptor: FileDescriptor { status: FileStatus::Downloaded, ..self.descriptor },
            ..self
        }
    }
}

/// A one-time permission to subscribe to events, kept as a digest.
pub struct EventTicket {
    hash: [u8; 32],
    expires_at: Timestamp,
}

/// One tunnel.
pub struct Tunnel {
    id: u128,
    status: TunnelStatus,
    pairing_hash: Option<[u8; 32]>,
    desktop_hash: [u8; 32],
    phone_hash: Option<[u8; 32]>,
    expires_at: Timestamp,
    max_files: u16,
    max_file_bytes: u64,
    accept: Vec<String>,
    files: HashMap<u128, StoredFile>,
    sequence: u64,
    event_tickets: Vec<EventTicket>,
}

/// What a [`Tunnel`] stands for. Capabilities and tickets appear by the digests
/// of their tokens only.
#[verifier::ext_equal]
pub struct TunnelModel {
    pub id: u128,
    pub status: TunnelStatus,
    pub pairing: Option<Seq<u8>>,
    pub desktop: Seq<u8>,
    pub phone: Option<Seq<u8>>,
    pub expires_at: Timestamp,
    pub max_files: u16,
    pub max_file_bytes: u64,
    pub accept: Seq<Seq<char>>,
    pub files: Map<u128, FileModel>,
    /// The number of events published so far.
    pub sequence: u64,
    pub tickets: Map<Seq<u8>, Timestamp>,
}

spec fn hash_view(hash: Option<[u8; 32]>) -> Option<Seq<u8>> {
    match hash {
        Some(hash) => Some(hash@),
        None => None,
    }
}

spec fn file_models(files: Map<u128, StoredFile>) -> Map<u128, FileModel> {
    Map::new(|id: u128| files.contains_key(id), |id: u128| files[id]@)
}

/// `id` is among the first `count` keys of a walk through the file table.
spec fn is_key_before(walk: Seq<(&u128, &StoredFile)>, count: int, id: u128) -> bool {
    exists|k: int| 0 <= k < count && *(#[trigger] walk[k]).0 == id
}

/// Where the ticket with digest `hash` stands in the list.
spec fn ticket_at(list: Seq<EventTicket>, hash: Seq<u8>, i: int) -> bool {
    0 <= i < list.len() && list[i].hash@ == hash
}

spec fn ticket_models(list: Seq<EventTicket>) -> Map<Seq<u8>, Timestamp> {
    Map::new(
        |hash: Seq<u8>| exists|i: int| ticket_at(list, hash, i),
        |hash: Seq<u8>| list[choose|i: int| ticket_at(list, hash, i)].expires_at,
    )
}

/// No digest occurs twice.
spec fn distinct_tickets(list: Seq<EventTicket>) -> bool {
    forall|i: int, j: int|
        0 <= i < list.len() && 0 <= j < list.len() && i != j ==> (#[trigger] list[i]).hash@ != (
        #[trigger] list[j]).hash@
}

impl View for Tunnel {
    type V = TunnelModel;

    closed spec fn view(&self) -> TunnelModel {
        TunnelModel {
            id: self.id,
            status: self.status,
            pairing: hash_view(self.pairing_hash),
            desktop: self.desktop_hash@,
            phone: hash_view(self.phone_hash),
            expires_at: self.expires_at,
            max_files: self.max_files,
            max_file_bytes: self.max_file_bytes,
            accept: declaration::texts(self.accept@),
            files: file_models(self.files@),
            sequence: self.sequence,
            tickets: ticket_models(self.event_tickets@),
        }
    }
}

/// The first of two refusals that applies.
pub open spec fn first_of(first: Option<ApiError>, second: Option<ApiError>) -> Option<ApiError> {
    match first {
        Some(error) => Some(error),
        None => second,
    }
}

/// `error`, where the condition fails.
pub open spec fn unless(condition: bool, error: ApiError) -> Option<ApiError> {
    if condition {
        None
    } else {
        Some(error)
    }
}

/// The event with number `sequence` of a tunnel.
pub open spec fn event_of(
    tunnel_id: u128,
    sequence: u64,
    stamp: EventStamp,
    kind: &'static str,
    file_id: Option<u128>,
    bytes_transferred: Option<u64>,
) -> TunnelEvent {
    TunnelEvent {
        event_id: stamp.event_id,
        sequence,
        occurred_at: stamp.occurred_at,
        tunnel_id,
        kind,
        file_id,
        bytes_transferred,
        reason_code: None,
    }
}

impl TunnelModel {
    /// Every file in the tunnel has been fetched.
    pub open spec fn all_downloaded(self) -> bool {
        forall|id: u128| #[trigger]
            self.files.contains_key(id) ==> self.files[id].descriptor.status is Downloaded
    }

    /// What holds of every tunnel at every moment.
    pub open spec fn is_consistent(self) -> bool {
        &&& self.pairing is Some <==> self.phone is None
        &&& match self.status {
            TunnelStatus::Waiting => self.phone is None && self.files == Map::<
                u128,
                FileModel,
            >::empty(),
            TunnelStatus::Connected | TunnelStatus::Transferring => self.phone is Some,
            TunnelStatus::Complete => {
                &&& self.phone is Some
                &&& self.files != Map::<u128, FileModel>::empty()
                &&& self.all_downloaded()
                &&& self.tickets == Map::<Seq<u8>, Timestamp>::empty()
            },
            TunnelStatus::Cancelled => {
                &&& self.files == Map::<u128, FileModel>::empty()
                &&& self.tickets == Map::<Seq<u8>, Timestamp>::empty()
            },
            TunnelStatus::Expired => true,
        }
        &&& self.files.dom().finite()
        &&& self.files.dom().len() <= self.max_files
        &&& forall|id: u128| #[trigger]
            self.files.contains_key(id) ==> {
                &&& self.files[id].is_consistent()
                &&& self.files[id].descriptor.file_id == id
                &&& self.files[id].descriptor.size_bytes <= self.max_file_bytes
            }
    }

    /// The refusal of every request to a tunnel that is over.
    pub open spec fn inactive(self, now: Timestamp) -> Option<ApiError> {
        if self.expires_at.at_or_before(now) || self.status is Expired {
            Some(ApiError::Expired)
        } else if self.status is Cancelled {
            Some(ApiError::Conflict)
        } else {
            None
        }
    }

    /// The refusal of an operation outside the scope or phase of a capability.
    pub open spec fn forbids(self, principal: Principal, operation: Operation) -> Option<
        ApiError,
    > {
        unless(protocol::permitted(self.status, principal, operation), ApiError::Conflict)
    }

    /// The refusal of an operation that the desktop's capability is asked for.
    pub open spec fn desktop_gate(self, supplied: Seq<u8>, operation: Operation) -> Option<
        ApiError,
    > {
        first_of(
            unless(self.desktop == supplied, ApiError::Unauthorized),
            self.forbids(Principal::Desktop, operation),
        )
    }

    /// The refusal of an operation that the phone's capability is asked for.
    pub open spec fn phone_gate(self, supplied: Seq<u8>, operation: Operation) -> Option<
        ApiError,
    > {
        first_of(
            unless(self.phone == Some(supplied), ApiError::Unauthorized),
            self.forbids(Principal::Phone, operation),
        )
    }

    /// The refusal of an operation that either capability may cover.
    pub open spec fn either_gate(self, supplied: Seq<u8>, operation: Operation) -> Option<
        ApiError,
    > {
        if self.desktop == supplied {
            self.forbids(Principal::Desktop, operation)
        } else {
            self.phone_gate(supplied, operation)
        }
    }

    /// Why a claim is refused, if it is.
    pub open spec fn claim_refusal(self, now: Timestamp, supplied: Seq<u8>) -> Option<ApiError> {
        first_of(
            self.inactive(now),
            first_of(
                self.forbids(Principal::PairingSecret, Operation::Claim),
                match self.pairing {
                    None => Some(ApiError::Conflict),
                    Some(expected) => unless(expected == supplied, ApiError::Unauthorized),
                },
            ),
        )
    }

    /// The tunnel once a phone has claimed it.
    pub open spec fn claimed(self, phone: Seq<u8>) -> Self {
        TunnelModel {
            phone: Some(phone),
            pairing: None,
            status: TunnelStatus::Connected,
            sequence: (self.sequence + 1) as u64,
            ..self
        }
    }

    /// Why the state of a tunnel is not shown, if it is not.
    pub open spec fn snapshot_refusal(self, now: Timestamp, supplied: Seq<u8>) -> Option<
        ApiError,
    > {
        first_of(self.inactive(now), self.either_gate(supplied, Operation::ReadSnapshot))
    }

    /// Why a cancellation is refused, if it is.
    pub open spec fn cancel_refusal(self, now: Timestamp, supplied: Seq<u8>) -> Option<ApiError> {
        first_of(self.inactive(now), self.desktop_gate(supplied, Operation::Cancel))
    }

    /// The tunnel once the desktop has cancelled it.
    pub open spec fn cancelled(self) -> Self {
        TunnelModel {
            status: TunnelStatus::Cancelled,
            files: Map::empty(),
            tickets: Map::empty(),
            sequence: (self.sequence + 1) as u64,
            ..self
        }
    }

    /// Why a declaration is refused, if it is.
    pub open spec fn declare_refusal(
        self,
        now: Timestamp,
        supplied: Seq<u8>,
        request: DeclareFileRequest,
    ) -> Option<ApiError> {
        first_of(
            self.inactive(now),
            first_of(
                self.phone_gate(supplied, Operation::DeclareFile),
                first_of(
                    unless(
                        self.files.dom().len() < self.max_files && request.size_bytes
                            <= self.max_file_bytes,
                        ApiError::TooLarge,
                    ),
                    first_of(
                        unless(
                            declaration::accepts(self.accept, request.media_type@),
                            ApiError::UnsupportedMedia,
                        ),
                        unless(
                            request.sha256 matches Some(digest) ==> declaration::is_digest_text(
                                digest@,
                            ),
                            ApiError::Invalid(InvalidRequest::Sha256),
                        ),
                    ),
                ),
            ),
        )
    }

    /// The tunnel with one more file, of which nothing has arrived.
    pub open spec fn declared(self, descriptor: FileDescriptor) -> Self {
        TunnelModel {
            files: self.files.insert(
                descriptor.file_id,
                FileModel {
                    descriptor,
                    upload: Upload { total: descriptor.size_bytes, bytes: Seq::empty() },
                    uploaded: false,
                },
            ),
            sequence: (self.sequence + 1) as u64,
            ..self
        }
    }

    /// Why an upload, or a probe of one, is refused on its head, if it is.
    pub open spec fn upload_refusal(
        self,
        now: Timestamp,
        supplied: Seq<u8>,
        file_id: u128,
    ) -> Option<ApiError> {
        first_of(
            self.inactive(now),
            first_of(
                self.phone_gate(supplied, Operation::UploadFile),
                unless(self.files.contains_key(file_id), ApiError::NotFound),
            ),
        )
    }

    /// Why a chunk is refused, if it is.
    pub open spec fn commit_refusal(
        self,
        now: Timestamp,
        supplied: Seq<u8>,
        file_id: u128,
        range: ContentRange,
        chunk: Seq<u8>,
    ) -> Option<ApiError> {
        first_of(
            self.upload_refusal(now, supplied, file_id),
            match self.files[file_id].upload.refusal(range, chunk) {
                Some(error) => Some(problem::upload_refusal(error)),
                None => None,
            },
        )
    }

    /// The chunk carries the last bytes of the file.
    pub open spec fn completes(self, file_id: u128, range: ContentRange, chunk: Seq<u8>) -> bool {
        let upload = self.files[file_id].upload;
        !upload.is_complete() && upload.committed(range, chunk).is_complete()
    }

    /// What subscribers are told of an accepted chunk.
    pub open spec fn commit_events(
        self,
        file_id: u128,
        range: ContentRange,
        chunk: Seq<u8>,
        progress: EventStamp,
        available: EventStamp,
    ) -> Seq<TunnelEvent> {
        let upload = self.files[file_id].upload;
        let offset = Some(upload.outcome(range, chunk).offset);
        if self.files[file_id].is_retry(range) {
            Seq::empty()
        } else {
            let first = event_of(
                self.id,
                (self.sequence + 1) as u64,
                progress,
                "file.progress",
                Some(file_id),
                offset,
            );
            let second = event_of(
                self.id,
                (self.sequence + 2) as u64,
                available,
                "file.available",
                Some(file_id),
                offset,
            );
            if self.completes(file_id, range, chunk) {
                seq![first, second]
            } else {
                seq![first]
            }
        }
    }

    /// The tunnel after a chunk of a file was accepted: a retry changes nothing.
    pub open spec fn committed(self, file_id: u128, range: ContentRange, chunk: Seq<u8>) -> Self {
        if self.files[file_id].is_retry(range) {
            self
        } else {
            TunnelModel {
                files: self.files.insert(file_id, self.files[file_id].committed(range, chunk)),
                status: TunnelStatus::Transferring,
                sequence: if self.completes(file_id, range, chunk) {
                    (self.sequence + 2) as u64
                } else {
                    (self.sequence + 1) as u64
                },
                ..self
            }
        }
    }

    /// Why a file is not handed over, if it is not.
    pub open spec fn download_refusal(
        self,
        now: Timestamp,
        supplied: Seq<u8>,
        file_id: u128,
    ) -> Option<ApiError> {
        first_of(
            self.inactive(now),
            first_of(
                self.desktop_gate(supplied, Operation::DownloadFile),
                first_of(
                    unless(self.files.contains_key(file_id), ApiError::NotFound),
                    unless(self.files[file_id].upload.is_complete(), ApiError::Conflict),
                ),
            ),
        )
    }

    /// The tunnel once the desktop has fetched a file. The last one completes
    /// it, and no ticket outlives that.
    pub open spec fn downloaded(self, file_id: u128) -> Self {
        let fetched = TunnelModel {
            files: self.files.insert(file_id, self.files[file_id].downloaded()),
            sequence: (self.sequence + 1) as u64,
            ..self
        };
        if fetched.all_downloaded() {
            TunnelModel { status: TunnelStatus::Complete, tickets: Map::empty(), ..fetched }
        } else {
            fetched
        }
    }

    /// Why no event ticket is minted, if none is.
    pub open spec fn ticket_refusal(self, now: Timestamp, supplied: Seq<u8>) -> Option<ApiError> {
        first_of(self.inactive(now), self.either_gate(supplied, Operation::MintEventTicket))
    }

    /// The tunnel with one more ticket.
    pub open spec fn ticketed(self, ticket: Seq<u8>, expires_at: Timestamp) -> Self {
        TunnelModel { tickets: self.tickets.insert(ticket, expires_at), ..self }
    }

    /// The refusal of a ticket that does not exist.
    pub open spec fn redeem_refusal(self, now: Timestamp, ticket: Seq<u8>) -> Option<ApiError> {
        first_of(
            self.inactive(now),
            first_of(
                self.forbids(Principal::EventTicket, Operation::RedeemEventTicket),
                unless(self.tickets.contains_key(ticket), ApiError::Unauthorized),
            ),
        )
    }

    /// The tunnel without a ticket.
    pub open spec fn redeemed(self, ticket: Seq<u8>) -> Self {
        TunnelModel { tickets: self.tickets.remove(ticket), ..self }
    }
}

/// `listing` holds each file of the tunnel once, the oldest first.
pub open spec fn lists_files(listing: Seq<FileDescriptor>, files: Map<u128, FileModel>) -> bool {
    &&& listing.len() == files.dom().len()
    &&& forall|i: int|
        0 <= i < listing.len() ==> files.contains_key((#[trigger] listing[i]).file_id)
            && files[listing[i].file_id].descriptor == listing[i]
    &&& forall|i: int, j: int|
        0 <= i < j < listing.len() ==> (#[trigger] listing[i]).file_id != (
        #[trigger] listing[j]).file_id
    &&& forall|i: int, j: int|
        0 <= i < j < listing.len() ==> (#[trigger] listing[i]).created_at.at_or_before(
            (#[trigger] listing[j]).created_at,
        )
}

proof fn lemma_file_insert(files: Map<u128, StoredFile>, id: u128, file: StoredFile)
    ensures
        file_models(files.insert(id, file)) == file_models(files).insert(id, file@),
{
    assert(file_models(files.insert(id, file)) =~= file_models(files).insert(id, file@));
}

proof fn lemma_file_count(files: Map<u128, StoredFile>)
    ensures
        file_models(files).dom() == files.dom(),
{
    assert(file_models(files).dom() =~= files.dom());
}

proof fn lemma_ticket_lookup(list: Seq<EventTicket>, i: int)
    requires
        distinct_tickets(list),
        0 <= i < list.len(),
    ensures
        ticket_models(list).contains_key(list[i].hash@),
        ticket_models(list)[list[i].hash@] == list[i].expires_at,
{
    assert(ticket_at(list, list[i].hash@, i));
    let j = choose|j: int| ticket_at(list, list[i].hash@, j);
    assert(ticket_at(list, list[i].hash@, j));
}

proof fn lemma_ticket_push(list: Seq<EventTicket>, ticket: EventTicket)
    requires
        distinct_tickets(list),
        !ticket_models(list).contains_key(ticket.hash@),
    ensures
        distinct_tickets(list.push(ticket)),
        ticket_models(list.push(ticket)) == ticket_models(list).insert(
            ticket.hash@,
            ticket.expires_at,
        ),
{
    let longer = list.push(ticket);
    assert forall|i: int| 0 <= i < list.len() implies (#[trigger] list[i]).hash@
        != ticket.hash@ by {
        lemma_ticket_lookup(list, i);
    }
    assert(distinct_tickets(longer));
    let expected = ticket_models(list).insert(ticket.hash@, ticket.expires_at);
    assert forall|hash: Seq<u8>|
        ticket_models(longer).contains_key(hash) <==> expected.contains_key(hash) by {
        if ticket_models(longer).contains_key(hash) {
            let i = choose|i: int| ticket_at(longer, hash, i);
            if i < list.len() {
                assert(ticket_at(list, hash, i));
            }
        }
        if ticket_models(list).contains_key(hash) {
            let i = choose|i: int| ticket_at(list, hash, i);
            assert(ticket_at(longer, hash, i));
        }
        if hash == ticket.hash@ {
            assert(ticket_at(longer, hash, list.len() as int));
        }
    }
    assert forall|hash: Seq<u8>| ticket_models(longer).contains_key(hash) implies ticket_models(
        longer,
    )[hash] == expected[hash] by {
        let i = choose|i: int| ticket_at(longer, hash, i);
        lemma_ticket_lookup(longer, i);
        if i < list.len() {
            lemma_ticket_lookup(list, i);
        }
    }
    assert(ticket_models(longer) =~= expected);
}

proof fn lemma_ticket_remove(list: Seq<EventTicket>, at: int)
    requires
        distinct_tickets(list),
        0 <= at < list.len(),
    ensures
        distinct_tickets(list.remove(at)),
        ticket_models(list.remove(at)) == ticket_models(list).remove(list[at].hash@),
{
    let shorter = list.remove(at);
    let gone = list[at].hash@;
    assert forall|i: int, j: int|
        0 <= i < shorter.len() && 0 <= j < shorter.len() && i != j implies (
    #[trigger] shorter[i]).hash@ != (#[trigger] shorter[j]).hash@ by {
        let before = |k: int| if k < at { k } else { k + 1 };
        assert(shorter[i] == list[before(i)] && shorter[j] == list[before(j)]);
    }
    let expected = ticket_models(list).remove(gone);
    assert forall|hash: Seq<u8>|
        ticket_models(shorter).contains_key(hash) <==> expected.contains_key(hash) by {
        if ticket_models(shorter).contains_key(hash) {
            let i = choose|i: int| ticket_at(shorter, hash, i);
            let k = if i < at { i } else { i + 1 };
            assert(shorter[i] == list[k]);
            assert(ticket_at(list, hash, k));
            assert(list[k].hash@ != list[at].hash@);
        }
        if expected.contains_key(hash) {
            let i = choose|i: int| ticket_at(list, hash, i);
            assert(i != at);
            let k = if i < at { i } else { i - 1 };
            assert(shorter[k] == list[i]);
            assert(ticket_at(shorter, hash, k));
        }
    }
    assert forall|hash: Seq<u8>| ticket_models(shorter).contains_key(hash) implies ticket_models(
        shorter,
    )[hash] == expected[hash] by {
        let i = choose|i: int| ticket_at(shorter, hash, i);
        let k = if i < at { i } else { i + 1 };
        assert(shorter[i] == list[k]);
        lemma_ticket_lookup(shorter, i);
        lemma_ticket_lookup(list, k);
    }
    assert(ticket_models(shorter) =~= expected);
}

proof fn lemma_no_tickets()
    ensures
        ticket_models(Seq::empty()) == Map::<Seq<u8>, Timestamp>::empty(),
{
    assert(ticket_models(Seq::empty()) =~= Map::<Seq<u8>, Timestamp>::empty());
}

/// The refusal that `error` stands for, or success.
spec fn verdict(refusal: Option<ApiError>) -> Result<(), ApiError> {
    match refusal {
        Some(error) => Err(error),
        None => Ok(()),
    }
}

/// A tunnel as its creator asked for it, before anyone has claimed it.
pub open spec fn fresh_tunnel(
    id: u128,
    pairing: Seq<u8>,
    desktop: Seq<u8>,
    expires_at: Timestamp,
    max_files: u16,
    max_file_bytes: u64,
    accept: Seq<Seq<char>>,
) -> TunnelModel {
    TunnelModel {
        id,
        status: TunnelStatus::Waiting,
        pairing: Some(pairing),
        desktop,
        phone: None,
        expires_at,
        max_files,
        max_file_bytes,
        accept,
        files: Map::empty(),
        sequence: 0,
        tickets: Map::empty(),
    }
}

/// The descriptor of a file of which nothing has arrived.
pub open spec fn new_descriptor(
    request: DeclareFileRequest,
    file_id: u128,
    created_at: Timestamp,
) -> FileDescriptor {
    FileDescriptor {
        file_id,
        name: request.name,
        media_type: request.media_type,
        size_bytes: request.size_bytes,
        bytes_transferred: 0,
        status: FileStatus::Declared,
        created_at,
    }
}

/// What a probe of an upload reports.
pub open spec fn progress_of(upload: Upload) -> AppendOutcome {
    AppendOutcome {
        offset: upload.bytes.len() as u64,
        complete: upload.is_complete(),
        replayed: true,
    }
}

/// How a rejected declaration is answered.
fn rejection_error(reason: DeclarationRejection) -> (error: ApiError)
    ensures
        error == match reason {
            DeclarationRejection::InvalidName => ApiError::Invalid(InvalidRequest::FileName),
            DeclarationRejection::FileLimitReached
            | DeclarationRejection::FileTooLarge => ApiError::TooLarge,
            DeclarationRejection::UnsupportedMedia => ApiError::UnsupportedMedia,
            DeclarationRejection::InvalidSha256 => ApiError::Invalid(InvalidRequest::Sha256),
        },
{
    match reason {
        DeclarationRejection::InvalidName => ApiError::Invalid(InvalidRequest::FileName),
        DeclarationRejection::FileLimitReached
        | DeclarationRejection::FileTooLarge => ApiError::TooLarge,
        DeclarationRejection::UnsupportedMedia => ApiError::UnsupportedMedia,
        DeclarationRejection::InvalidSha256 => ApiError::Invalid(InvalidRequest::Sha256),
    }
}

impl Tunnel {
    /// The representation behind the model is sound.
    pub closed spec fn is_well_formed(&self) -> bool {
        distinct_tickets(self.event_tickets@)
    }

    /// A tunnel that waits for its phone.
    pub(crate) fn new(
        id: u128,
        pairing_hash: [u8; 32],
        desktop_hash: [u8; 32],
        expires_at: Timestamp,
        max_files: u16,
        max_file_bytes: u64,
        accept: Vec<String>,
    ) -> (tunnel: Tunnel)
        ensures
            tunnel.is_well_formed(),
            tunnel@ == fresh_tunnel(
                id,
                pairing_hash@,
                desktop_hash@,
                expires_at,
                max_files,
                max_file_bytes,
                declaration::texts(accept@),
            ),
            tunnel@.is_consistent(),
    {
        let tunnel: Tunnel = Tunnel {
            id,
            status: TunnelStatus::Waiting,
            pairing_hash: Some(pairing_hash),
            desktop_hash,
            phone_hash: None,
            expires_at,
            max_files,
            max_file_bytes,
            accept,
            files: HashMap::new(),
            sequence: 0,
            event_tickets: Vec::new(),
        };
        proof {
            lemma_no_tickets();
            assert(file_models(tunnel.files@) =~= Map::<u128, FileModel>::empty());
        }
        tunnel
    }

    fn ensure_active(&self, now: &Timestamp) -> (result: Result<(), ApiError>)
        ensures
            result == verdict(self@.inactive(*now)),
    {
        if self.expires_at.is_at_or_before(now) || matches!(self.status, TunnelStatus::Expired) {
            return Err(ApiError::Expired);
        }
        if matches!(self.status, TunnelStatus::Cancelled) {
            return Err(ApiError::Conflict);
        }
        Ok(())
    }

    fn authorize(&self, principal: Principal, operation: Operation) -> (result: Result<
        (),
        ApiError,
    >)
        ensures
            result == verdict(self@.forbids(principal, operation)),
    {
        if protocol::permits(self.status, principal, operation) {
            Ok(())
        } else {
            Err(ApiError::Conflict)
        }
    }

    fn require_desktop(&self, supplied: &[u8; 32], operation: Operation) -> (result: Result<
        (),
        ApiError,
    >)
        ensures
            result == verdict(self@.desktop_gate(supplied@, operation)),
    {
        if !capability::hashes_equal(&self.desktop_hash, supplied) {
            return Err(ApiError::Unauthorized);
        }
        self.authorize(Principal::Desktop, operation)
    }

    /// Whether `supplied` is the digest of the phone capability.
    fn is_phone(&self, supplied: &[u8; 32]) -> (answer: bool)
        ensures
            answer == (self@.phone == Some(supplied@)),
    {
        match &self.phone_hash {
            Some(expected) => capability::hashes_equal(expected, supplied),
            None => false,
        }
    }

    fn require_phone(&self, supplied: &[u8; 32], operation: Operation) -> (result: Result<
        (),
        ApiError,
    >)
        ensures
            result == verdict(self@.phone_gate(supplied@, operation)),
    {
        if !self.is_phone(supplied) {
            return Err(ApiError::Unauthorized);
        }
        self.authorize(Principal::Phone, operation)
    }

    fn require_either(&self, supplied: &[u8; 32], operation: Operation) -> (result: Result<
        (),
        ApiError,
    >)
        ensures
            result == verdict(self@.either_gate(supplied@, operation)),
    {
        if capability::hashes_equal(&self.desktop_hash, supplied) {
            return self.authorize(Principal::Desktop, operation);
        }
        if self.is_phone(supplied) {
            return self.authorize(Principal::Phone, operation);
        }
        Err(ApiError::Unauthorized)
    }

    /// Numbers the next event of the tunnel and changes nothing else.
    pub fn publish(
        &mut self,
        stamp: EventStamp,
        kind: &'static str,
        file_id: Option<u128>,
        bytes_transferred: Option<u64>,
        reason_code: Option<&'static str>,
    ) -> (event: TunnelEvent)
        requires
            old(self)@.sequence < u64::MAX,
        ensures
            final(self)@ == (TunnelModel {
                sequence: (old(self)@.sequence + 1) as u64,
                ..old(self)@
            }),
            final(self).is_well_formed() == old(self).is_well_formed(),
            event == (TunnelEvent {
                reason_code,
                ..event_of(
                    old(self)@.id,
                    final(self)@.sequence,
                    stamp,
                    kind,
                    file_id,
                    bytes_transferred,
                )
            }),
    {
        self.sequence = self.sequence + 1;
        TunnelEvent {
            event_id: stamp.event_id,
            sequence: self.sequence,
            occurred_at: stamp.occurred_at,
            tunnel_id: self.id,
            kind,
            file_id,
            bytes_transferred,
            reason_code,
        }
    }

    /// The number of events published so far.
    pub(crate) fn sequence(&self) -> (sequence: u64)
        ensures
            sequence == self@.sequence,
    {
        self.sequence
    }

    /// The instant at which the tunnel expires.
    pub(crate) fn expires_at(&self) -> (instant: Timestamp)
        ensures
            instant == self@.expires_at,
    {
        self.expires_at
    }

    /// The phase of the tunnel.
    pub(crate) fn status(&self) -> (status: TunnelStatus)
        ensures
            status == self@.status,
    {
        self.status
    }

    /// Exchanges the pairing secret for the phone capability, once.
    pub(crate) fn claim(
        &mut self,
        now: &Timestamp,
        supplied: &[u8; 32],
        phone_hash: [u8; 32],
        stamp: EventStamp,
    ) -> (result: Result<TunnelEvent, ApiError>)
        requires
            old(self).is_well_formed(),
            old(self)@.is_consistent(),
            old(self)@.sequence < u64::MAX,
        ensures
            final(self).is_well_formed(),
            final(self)@.is_consistent(),
            match old(self)@.claim_refusal(*now, supplied@) {
                Some(error) => result == Err::<TunnelEvent, ApiError>(error) && final(self)@
                    == old(self)@,
                None => {
                    &&& final(self)@ == old(self)@.claimed(phone_hash@)
                    &&& result == Ok::<TunnelEvent, ApiError>(
                        event_of(
                            old(self)@.id,
                            final(self)@.sequence,
                            stamp,
                            "tunnel.connected",
                            None,
                            None,
                        ),
                    )
                },
            },
    {
        self.ensure_active(now)?;
        self.authorize(Principal::PairingSecret, Operation::Claim)?;
        let expected: [u8; 32] = match self.pairing_hash {
            Some(expected) => expected,
            None => {
                return Err(ApiError::Conflict);
            },
        };
        if !capability::hashes_equal(&expected, supplied) {
            return Err(ApiError::Unauthorized);
        }
        self.phone_hash = Some(phone_hash);
        self.pairing_hash = None;
        self.status = TunnelStatus::Connected;
        let event: TunnelEvent = self.publish(stamp, "tunnel.connected", None, None, None);
        Ok(event)
    }

    /// Ends the tunnel and drops its files and tickets.
    pub(crate) fn cancel(
        &mut self,
        now: &Timestamp,
        supplied: &[u8; 32],
        stamp: EventStamp,
    ) -> (result: Result<TunnelEvent, ApiError>)
        requires
            old(self).is_well_formed(),
            old(self)@.is_consistent(),
            old(self)@.sequence < u64::MAX,
        ensures
            final(self).is_well_formed(),
            final(self)@.is_consistent(),
            match old(self)@.cancel_refusal(*now, supplied@) {
                Some(error) => result == Err::<TunnelEvent, ApiError>(error) && final(self)@
                    == old(self)@,
                None => {
                    &&& final(self)@ == old(self)@.cancelled()
                    &&& result == Ok::<TunnelEvent, ApiError>(
                        event_of(
                            old(self)@.id,
                            final(self)@.sequence,
                            stamp,
                            "tunnel.cancelled",
                            None,
                            None,
                        ),
                    )
                },
            },
    {
        self.ensure_active(now)?;
        self.require_desktop(supplied, Operation::Cancel)?;
        self.status = TunnelStatus::Cancelled;
        self.files.clear();
        self.event_tickets.clear();
        proof {
            lemma_no_tickets();
            assert(file_models(self.files@) =~= Map::<u128, FileModel>::empty());
        }
        let event: TunnelEvent = self.publish(stamp, "tunnel.cancelled", None, None, None);
        Ok(event)
    }

    /// Admits one more file.
    pub(crate) fn declare(
        &mut self,
        now: &Timestamp,
        supplied: &[u8; 32],
        request: DeclareFileRequest,
        file_id: u128,
        created_at: Timestamp,
        stamp: EventStamp,
    ) -> (result: Result<(FileDescriptor, TunnelEvent), ApiError>)
        requires
            old(self).is_well_formed(),
            old(self)@.is_consistent(),
            old(self)@.sequence < u64::MAX,
            declaration::is_file_name(request.name@),
        ensures
            final(self).is_well_formed(),
            final(self)@.is_consistent(),
            match old(self)@.declare_refusal(*now, supplied@, request) {
                Some(error) => result == Err::<(FileDescriptor, TunnelEvent), ApiError>(error)
                    && final(self)@ == old(self)@,
                None => {
                    let descriptor = new_descriptor(request, file_id, created_at);
                    &&& final(self)@ == old(self)@.declared(descriptor)
                    &&& result == Ok::<(FileDescriptor, TunnelEvent), ApiError>(
                        (
                            descriptor,
                            event_of(
                                old(self)@.id,
                                final(self)@.sequence,
                                stamp,
                                "file.declared",
                                Some(file_id),
                                Some(0),
                            ),
                        ),
                    )
                },
            },
    {
        self.ensure_active(now)?;
        self.require_phone(supplied, Operation::DeclareFile)?;
        proof {
            lemma_file_count(self.files@);
        }
        let policy: DeclarationPolicy<'_> = DeclarationPolicy {
            current_files: self.files.len(),
            max_files: self.max_files,
            max_file_bytes: self.max_file_bytes,
            accepted_media: self.accept.as_slice(),
        };
        let claim: FileDeclaration<'_> = FileDeclaration {
            name: request.name.as_str(),
            media_type: request.media_type.as_str(),
            size_bytes: request.size_bytes,
            sha256: match &request.sha256 {
                Some(digest) => Some(digest.as_str()),
                None => None,
            },
        };
        if let Err(reason) = declaration::validate_declaration(policy, claim) {
            return Err(rejection_error(reason));
        }
        let descriptor: FileDescriptor = FileDescriptor {
            file_id,
            name: request.name,
            media_type: request.media_type,
            size_bytes: request.size_bytes,
            bytes_transferred: 0,
            status: FileStatus::Declared,
            created_at,
        };
        let stored: StoredFile = StoredFile {
            descriptor: descriptor.clone(),
            upload: UploadBuffer::new(descriptor.size_bytes),
            uploaded: false,
        };
        proof {
            lemma_file_insert(self.files@, file_id, stored);
            assert(old(self)@.declared(descriptor).files.dom() =~= old(self)@.files.dom().insert(
                file_id,
            ));
        }
        self.files.insert(file_id, stored);
        let event: TunnelEvent = self.publish(
            stamp,
            "file.declared",
            Some(file_id),
            Some(0),
            None,
        );
        Ok((descriptor, event))
    }

    /// The declared size of a file that the phone may upload.
    pub(crate) fn upload_size(
        &self,
        now: &Timestamp,
        supplied: &[u8; 32],
        file_id: u128,
    ) -> (result: Result<u64, ApiError>)
        requires
            self@.is_consistent(),
        ensures
            result == match self@.upload_refusal(*now, supplied@, file_id) {
                Some(error) => Err(error),
                None => Ok(self@.files[file_id].descriptor.size_bytes),
            },
    {
        self.ensure_active(now)?;
        self.require_phone(supplied, Operation::UploadFile)?;
        match self.files.get(&file_id) {
            Some(stored) => Ok(stored.descriptor.size_bytes),
            None => Err(ApiError::NotFound),
        }
    }

    /// How far the upload of a file has come.
    pub(crate) fn upload_progress(
        &self,
        now: &Timestamp,
        supplied: &[u8; 32],
        file_id: u128,
    ) -> (result: Result<AppendOutcome, ApiError>)
        requires
            self@.is_consistent(),
        ensures
            result == match self@.upload_refusal(*now, supplied@, file_id) {
                Some(error) => Err(error),
                None => Ok(progress_of(self@.files[file_id].upload)),
            },
    {
        self.ensure_active(now)?;
        self.require_phone(supplied, Operation::UploadFile)?;
        match self.files.get(&file_id) {
            Some(stored) => {
                assert(self@.files.contains_key(file_id));
                Ok(
                    AppendOutcome {
                        offset: stored.upload.offset(),
                        complete: stored.upload.is_complete(),
                        replayed: true,
                    },
                )
            },
            None => Err(ApiError::NotFound),
        }
    }

    /// Commits one chunk of a file.
    pub(crate) fn commit(
        &mut self,
        now: &Timestamp,
        supplied: &[u8; 32],
        file_id: u128,
        range: ContentRange,
        chunk: &[u8],
        progress: EventStamp,
        available: EventStamp,
    ) -> (result: Result<(AppendOutcome, Vec<TunnelEvent>), ApiError>)
        requires
            old(self).is_well_formed(),
            old(self)@.is_consistent(),
            old(self)@.sequence + 2 <= u64::MAX,
            range.is_valid(),
        ensures
            final(self).is_well_formed(),
            final(self)@.is_consistent(),
            match old(self)@.commit_refusal(*now, supplied@, file_id, range, chunk@) {
                Some(error) => result matches Err(refusal) && refusal == error && final(self)@
                    == old(self)@,
                None => {
                    &&& final(self)@ == old(self)@.committed(file_id, range, chunk@)
                    &&& result matches Ok((outcome, events))
                    &&& outcome == old(self)@.files[file_id].upload.outcome(range, chunk@)
                    &&& events@ == old(self)@.commit_events(
                        file_id,
                        range,
                        chunk@,
                        progress,
                        available,
                    )
                },
            },
    {
        self.ensure_active(now)?;
        self.require_phone(supplied, Operation::UploadFile)?;
        let ghost before = self@;
        let ghost files = self.files@;
        let mut stored: StoredFile = match self.files.remove(&file_id) {
            Some(stored) => stored,
            None => {
                assert(self.files@ =~= files);
                return Err(ApiError::NotFound);
            },
        };
        let ghost file = stored@;
        assert(before.files.contains_key(file_id) && before.files[file_id] == file);
        let was_complete: bool = stored.upload.is_complete();
        let appended = stored.upload.append(range, chunk);
        let outcome: AppendOutcome = match appended {
            Ok(outcome) => outcome,
            Err(error) => {
                self.files.insert(file_id, stored);
                proof {
                    assert(self.files@ =~= files);
                }
                return Err(problem::map_upload_error(error));
            },
        };
        let retried: bool = outcome.replayed || (range.is_empty() && stored.uploaded);
        if !retried {
            stored.uploaded = true;
            stored.descriptor.bytes_transferred = outcome.offset;
            stored.descriptor.status = if outcome.complete {
                FileStatus::Available
            } else {
                FileStatus::Uploading
            };
        }
        proof {
            lemma_file_insert(files, file_id, stored);
            assert(files.remove(file_id).insert(file_id, stored) =~= files.insert(file_id, stored));
            assert(range.start == range.end_exclusive ==> file.upload.bytes + chunk@
                =~= file.upload.bytes);
            assert(stored@ == file.committed(range, chunk@));
            assert(before.files.insert(file_id, stored@).dom() =~= before.files.dom());
            assert(retried ==> before.files.insert(file_id, stored@) =~= before.files);
        }
        self.files.insert(file_id, stored);
        let mut events: Vec<TunnelEvent> = Vec::new();
        if !retried {
            self.status = TunnelStatus::Transferring;
            let event: TunnelEvent = self.publish(
                progress,
                "file.progress",
                Some(file_id),
                Some(outcome.offset),
                None,
            );
            events.push(event);
        }
        if !was_complete && outcome.complete {
            let event: TunnelEvent = self.publish(
                available,
                "file.available",
                Some(file_id),
                Some(outcome.offset),
                None,
            );
            events.push(event);
        }
        assert(events@ =~= before.commit_events(file_id, range, chunk@, progress, available));
        Ok((outcome, events))
    }

    /// Whether every file in the tunnel has been fetched.
    fn every_file_downloaded(&self) -> (answer: bool)
        ensures
            answer == self@.all_downloaded(),
    {
        for entry in iter: self.files.iter()
            invariant
                iter.seq() == vstd::std_specs::iter::IteratorSpec::remaining(
                    &vstd::std_specs::hash::spec_hash_map_iter(&self.files),
                ),
                forall|i: int|
                    0 <= i < iter.index() ==> (
                    #[trigger] iter.seq()[i]).1.descriptor.status is Downloaded,
        {
            let (id, stored) = entry;
            if !matches!(stored.descriptor.status, FileStatus::Downloaded) {
                assert(self.files@.contains_key(*id));
                assert(self@.files.contains_key(*id));
                return false;
            }
        }
        proof {
            assert forall|id: u128| #[trigger]
                self@.files.contains_key(id) implies self@.files[id].descriptor.status
                is Downloaded by {
                assert(self.files@.contains_key(id));
                assert(vstd::std_specs::iter::IteratorSpec::remaining(
                    &vstd::std_specs::hash::spec_hash_map_iter(&self.files),
                ).contains((&id, &self.files@[id])));
            }
        }
        true
    }

    /// Hands a complete file to the desktop.
    pub(crate) fn download(
        &mut self,
        now: &Timestamp,
        supplied: &[u8; 32],
        file_id: u128,
        stamp: EventStamp,
    ) -> (result: Result<(Vec<u8>, String, TunnelEvent), ApiError>)
        requires
            old(self).is_well_formed(),
            old(self)@.is_consistent(),
            old(self)@.sequence < u64::MAX,
        ensures
            final(self).is_well_formed(),
            final(self)@.is_consistent(),
            match old(self)@.download_refusal(*now, supplied@, file_id) {
                Some(error) => result matches Err(refusal) && refusal == error && final(self)@
                    == old(self)@,
                None => {
                    let file = old(self)@.files[file_id];
                    &&& final(self)@ == old(self)@.downloaded(file_id)
                    &&& result matches Ok((content, media_type, event))
                    &&& content@ == file.upload.bytes
                    &&& media_type == file.descriptor.media_type
                    &&& event == event_of(
                        old(self)@.id,
                        final(self)@.sequence,
                        stamp,
                        "file.downloaded",
                        Some(file_id),
                        Some(file.upload.bytes.len() as u64),
                    )
                },
            },
    {
        self.ensure_active(now)?;
        self.require_desktop(supplied, Operation::DownloadFile)?;
        let ghost before = self@;
        let ghost files = self.files@;
        let mut stored: StoredFile = match self.files.remove(&file_id) {
            Some(stored) => stored,
            None => {
                assert(self.files@ =~= files);
                return Err(ApiError::NotFound);
            },
        };
        let ghost file = stored@;
        assert(before.files.contains_key(file_id) && before.files[file_id] == file);
        if !stored.upload.is_complete() {
            self.files.insert(file_id, stored);
            assert(self.files@ =~= files);
            return Err(ApiError::Conflict);
        }
        let content: Vec<u8> = vstd::slice::slice_to_vec(stored.upload.as_slice());
        let media_type: String = stored.descriptor.media_type.clone();
        stored.descriptor.status = FileStatus::Downloaded;
        proof {
            lemma_file_insert(files, file_id, stored);
            assert(files.remove(file_id).insert(file_id, stored) =~= files.insert(file_id, stored));
            assert(stored@ == file.downloaded());
            assert(before.files.insert(file_id, stored@).dom() =~= before.files.dom());
        }
        self.files.insert(file_id, stored);
        let size: u64 = content.len() as u64;
        let finished: bool = self.every_file_downloaded();
        assert(self@.files == before.files.insert(file_id, file.downloaded()));
        assert(self@.files.contains_key(file_id));
        if finished {
            self.status = TunnelStatus::Complete;
            self.event_tickets.clear();
            proof {
                lemma_no_tickets();
            }
        }
        let event: TunnelEvent = self.publish(
            stamp,
            "file.downloaded",
            Some(file_id),
            Some(size),
            None,
        );
        proof {
            let fetched = TunnelModel {
                files: before.files.insert(file_id, before.files[file_id].downloaded()),
                sequence: (before.sequence + 1) as u64,
                ..before
            };
            assert(fetched.files == self@.files);
            assert(finished == fetched.all_downloaded());
            assert(self@ =~= before.downloaded(file_id));
        }
        Ok((content, media_type, event))
    }

    /// Adds a ticket, in place of one with the same digest.
    pub(crate) fn mint_ticket(
        &mut self,
        now: &Timestamp,
        supplied: &[u8; 32],
        ticket: [u8; 32],
        expires_at: Timestamp,
    ) -> (result: Result<(), ApiError>)
        requires
            old(self).is_well_formed(),
            old(self)@.is_consistent(),
        ensures
            final(self).is_well_formed(),
            final(self)@.is_consistent(),
            match old(self)@.ticket_refusal(*now, supplied@) {
                Some(error) => result == Err::<(), ApiError>(error) && final(self)@ == old(self)@,
                None => result is Ok && final(self)@ == old(self)@.ticketed(ticket@, expires_at),
            },
    {
        self.ensure_active(now)?;
        self.require_either(supplied, Operation::MintEventTicket)?;
        let ghost before = self.event_tickets@;
        if let Some(at) = self.find_ticket(&ticket) {
            proof {
                lemma_ticket_remove(before, at as int);
            }
            self.event_tickets.remove(at);
        }
        let added: EventTicket = EventTicket { hash: ticket, expires_at };
        proof {
            lemma_ticket_push(self.event_tickets@, added);
            assert(ticket_models(self.event_tickets@).insert(ticket@, expires_at) =~= ticket_models(
                before,
            ).insert(ticket@, expires_at));
        }
        self.event_tickets.push(added);
        Ok(())
    }

    /// Where the ticket with this digest stands.
    fn find_ticket(&self, ticket: &[u8; 32]) -> (found: Option<usize>)
        requires
            self.is_well_formed(),
        ensures
            match found {
                Some(at) => at < self.event_tickets@.len() && self.event_tickets@[at as int].hash@
                    == ticket@ && self@.tickets.contains_key(ticket@) && self@.tickets[ticket@]
                    == self.event_tickets@[at as int].expires_at,
                None => !self@.tickets.contains_key(ticket@),
            },
    {
        let mut at: usize = 0;
        while at < self.event_tickets.len()
            invariant
                at <= self.event_tickets@.len(),
                self.is_well_formed(),
                forall|i: int|
                    0 <= i < at ==> (#[trigger] self.event_tickets@[i]).hash@ != ticket@,
            decreases self.event_tickets@.len() - at,
        {
            if capability::hashes_equal(&self.event_tickets[at].hash, ticket) {
                proof {
                    lemma_ticket_lookup(self.event_tickets@, at as int);
                }
                return Some(at);
            }
            at = at + 1;
        }
        proof {
            if self@.tickets.contains_key(ticket@) {
                let i = choose|i: int| ticket_at(self.event_tickets@, ticket@, i);
                assert(ticket_at(self.event_tickets@, ticket@, i));
            }
        }
        None
    }

    /// Takes a ticket out of circulation; it is good if it has not expired.
    pub(crate) fn redeem_ticket(
        &mut self,
        now: &Timestamp,
        ticket: &[u8; 32],
        redeemed_at: &Timestamp,
    ) -> (result: Result<(), ApiError>)
        requires
            old(self).is_well_formed(),
            old(self)@.is_consistent(),
        ensures
            final(self).is_well_formed(),
            final(self)@.is_consistent(),
            match old(self)@.redeem_refusal(*now, ticket@) {
                Some(error) => result == Err::<(), ApiError>(error) && final(self)@ == old(self)@,
                None => {
                    &&& final(self)@ == old(self)@.redeemed(ticket@)
                    &&& result == if old(self)@.tickets[ticket@].at_or_before(*redeemed_at) {
                        Err::<(), ApiError>(ApiError::Unauthorized)
                    } else {
                        Ok(())
                    }
                },
            },
    {
        self.ensure_active(now)?;
        self.authorize(Principal::EventTicket, Operation::RedeemEventTicket)?;
        let at: usize = match self.find_ticket(ticket) {
            Some(at) => at,
            None => {
                return Err(ApiError::Unauthorized);
            },
        };
        proof {
            lemma_ticket_remove(self.event_tickets@, at as int);
        }
        let redeemed: EventTicket = self.event_tickets.remove(at);
        if redeemed.expires_at.is_at_or_before(redeemed_at) {
            return Err(ApiError::Unauthorized);
        }
        Ok(())
    }

    /// What either party may see of the files.
    pub(crate) fn snapshot(&self, now: &Timestamp, supplied: &[u8; 32]) -> (result: Result<
        Vec<FileDescriptor>,
        ApiError,
    >)
        requires
            self@.is_consistent(),
        ensures
            match self@.snapshot_refusal(*now, supplied@) {
                Some(error) => result matches Err(refusal) && refusal == error,
                None => result matches Ok(listing) && lists_files(listing@, self@.files),
            },
    {
        self.ensure_active(now)?;
        self.require_either(supplied, Operation::ReadSnapshot)?;
        Ok(self.list_files())
    }

    /// The descriptors of all files, the oldest first.
    fn list_files(&self) -> (listing: Vec<FileDescriptor>)
        requires
            self@.is_consistent(),
        ensures
            lists_files(listing@, self@.files),
    {
        let mut listing: Vec<FileDescriptor> = Vec::new();
        for entry in iter: self.files.iter()
            invariant
                self@.is_consistent(),
                iter.seq() == vstd::std_specs::iter::IteratorSpec::remaining(
                    &vstd::std_specs::hash::spec_hash_map_iter(&self.files),
                ),
                iter.seq().no_duplicates(),
                listing@.len() == iter.index(),
                forall|i: int|
                    0 <= i < listing@.len() ==> self@.files.contains_key(
                        (#[trigger] listing@[i]).file_id,
                    ) && self@.files[listing@[i].file_id].descriptor == listing@[i],
                forall|i: int|
                    0 <= i < listing@.len() ==> is_key_before(
                        iter.seq(),
                        iter.index() as int,
                        (#[trigger] listing@[i]).file_id,
                    ),
                forall|i: int, j: int|
                    0 <= i < j < listing@.len() ==> (#[trigger] listing@[i]).file_id != (
                    #[trigger] listing@[j]).file_id,
                forall|i: int, j: int|
                    0 <= i < j < listing@.len() ==> (
                    #[trigger] listing@[i]).created_at.at_or_before(
                        (#[trigger] listing@[j]).created_at,
                    ),
        {
            let (id, stored) = entry;
            let descriptor: FileDescriptor = stored.descriptor.clone();
            assert(self.files@.contains_key(*id) && self.files@[*id] == *stored);
            assert(self@.files.contains_key(*id) && self@.files[*id].descriptor == descriptor);
            let mut at: usize = 0;
            while at < listing.len() && listing[at].created_at.is_at_or_before(
                &descriptor.created_at,
            )
                invariant
                    at <= listing@.len(),
                    forall|i: int|
                        0 <= i < at ==> (#[trigger] listing@[i]).created_at.at_or_before(
                            descriptor.created_at,
                        ),
                decreases listing@.len() - at,
            {
                at = at + 1;
            }
            let ghost shorter = listing@;
            let ghost reached = iter.index();
            proof {
                assert forall|i: int| 0 <= i < shorter.len() implies (
                #[trigger] shorter[i]).file_id != descriptor.file_id by {
                    assert(is_key_before(iter.seq(), reached as int, shorter[i].file_id));
                    let k = choose|k: int|
                        0 <= k < reached && *(#[trigger] iter.seq()[k]).0 == shorter[i].file_id;
                    if shorter[i].file_id == *id {
                        assert(self.files@.contains_key(*iter.seq()[k].0));
                        assert(iter.seq()[k] == iter.seq()[reached as int]);
                    }
                }
            }
            listing.insert(at, descriptor);
            proof {
                assert forall|i: int| 0 <= i < listing@.len() implies is_key_before(
                    iter.seq(),
                    reached + 1,
                    (#[trigger] listing@[i]).file_id,
                ) by {
                    if i == at {
                        assert(*iter.seq()[reached as int].0 == listing@[i].file_id);
                    } else {
                        let was = if i < at { i } else { i - 1 };
                        assert(listing@[i] == shorter[was]);
                        assert(is_key_before(iter.seq(), reached as int, shorter[was].file_id));
                        let k = choose|k: int|
                            0 <= k < reached && *(#[trigger] iter.seq()[k]).0
                                == shorter[was].file_id;
                        assert(*iter.seq()[k].0 == listing@[i].file_id);
                    }
                }
            }
        }
        proof {
            lemma_file_count(self.files@);
        }
        listing
    }
}

} // verus!
