//! Laws of each request: when it is granted, what it changes, what it answers
//! and what it announces, in plain words.
use vstd::prelude::*;

use crate::capability;
use crate::header;
use crate::laws::ranges;
use crate::laws::terms;
use crate::laws::tunnels;
use crate::laws::vocabulary;
use crate::limits;
use crate::problem::{ApiError, InvalidRequest, RangeProblem};
use crate::resumable::ContentRange;
use crate::state;
use crate::state::{Download, StateModel};
use crate::time::Timestamp;
use crate::tunnel;
use crate::tunnel::{EventStamp, FileModel, TunnelModel};
use crate::upload;
use crate::upload::{PendingModel, PendingUpload, UploadResponse};
use crate::{
    ClaimTunnelResponse, CreateTunnelRequest, CreateTunnelResponse, DeclareFileRequest,
    EventTicketResponse, FileDescriptor, FileStatus, TunnelEvent, TunnelSnapshot, TunnelStatus,
};

verus! {

/// Why a tunnel that is addressed turns every request away, if it does.
pub open spec fn is_closed_to_all(server: StateModel, tunnel_id: u128, now: Timestamp) -> Option<
    ApiError,
> {
    if !server.tunnels.contains_key(tunnel_id) {
        Some(ApiError::NotFound)
    } else if vocabulary::is_overdue(server.tunnels[tunnel_id], now)
        || server.tunnels[tunnel_id].status == TunnelStatus::Expired {
        Some(ApiError::Expired)
    } else if server.tunnels[tunnel_id].status == TunnelStatus::Cancelled {
        Some(ApiError::Conflict)
    } else {
        None
    }
}

/// Why a request with a bearer token is turned away: no token, a tunnel that
/// does not exist or is over, a token that is not the right one, or the wrong
/// phase, in this order.
pub open spec fn is_turned_away(
    server: StateModel,
    tunnel_id: u128,
    authorization: Option<Seq<u8>>,
    now: Timestamp,
    admitted: bool,
    in_phase: bool,
) -> Option<ApiError> {
    if vocabulary::is_anonymous(authorization) {
        Some(ApiError::Unauthorized)
    } else if is_closed_to_all(server, tunnel_id, now) is Some {
        is_closed_to_all(server, tunnel_id, now)
    } else if !admitted {
        Some(ApiError::Unauthorized)
    } else if !in_phase {
        Some(ApiError::Conflict)
    } else {
        None
    }
}

/// Every other tunnel is as it was.
pub open spec fn only_changes(before: StateModel, after: StateModel, tunnel_id: u128) -> bool {
    &&& after.portal_origin == before.portal_origin
    &&& after.tunnels.contains_key(tunnel_id)
    &&& forall|other: u128|
        other != tunnel_id ==> #[trigger] after.tunnels.contains_key(other)
            == before.tunnels.contains_key(other) && after.tunnels[other] == before.tunnels[other]
}

/// What was agreed when the tunnel was made is as it was.
pub open spec fn keeps_terms(before: TunnelModel, after: TunnelModel) -> bool {
    &&& after.id == before.id
    &&& after.desktop == before.desktop
    &&& after.expires_at == before.expires_at
    &&& after.max_files == before.max_files
    &&& after.max_file_bytes == before.max_file_bytes
    &&& after.accept == before.accept
}

/// Who may do what is as it was.
pub open spec fn keeps_capabilities(before: TunnelModel, after: TunnelModel) -> bool {
    after.pairing == before.pairing && after.phone == before.phone
}

/// The event of the tunnel with this number, stamp and content.
pub open spec fn is_event(
    event: TunnelEvent,
    tunnel: TunnelModel,
    number: int,
    stamp: EventStamp,
    kind: Seq<char>,
    file_id: Option<u128>,
    bytes_transferred: Option<u64>,
) -> bool {
    &&& event.tunnel_id == tunnel.id
    &&& event.sequence == number
    &&& event.event_id == stamp.event_id
    &&& event.occurred_at == stamp.occurred_at
    &&& event.kind@ == kind
    &&& event.file_id == file_id
    &&& event.bytes_transferred == bytes_transferred
    &&& event.reason_code is None
}

/// A tunnel is created exactly where the application name has 1 to 128 bytes,
/// there are to be 1 to 100 files of 1 byte to 5 GiB, the lifetime is 60 to 3600
/// seconds and there are 1 to 32 media patterns. It waits for its phone, holds
/// the digests of its two secrets and what was asked for, and nothing else; the
/// answer is all that its maker needs.
pub proof fn law_creating(
    before: StateModel,
    after: StateModel,
    request: CreateTunnelRequest,
    tunnel_id: u128,
    pairing_secret: Seq<char>,
    desktop_capability: Seq<char>,
    now: Timestamp,
    result: Result<CreateTunnelResponse, ApiError>,
)
    requires
        state::create_answer(
            before,
            after,
            request,
            tunnel_id,
            pairing_secret,
            desktop_capability,
            now,
            result,
        ),
        now.seconds + request.expires_in_seconds <= i64::MAX,
    ensures
        result is Ok <==> ({
            let id_size = vstd::utf8::encode_utf8(request.application_id@).len();
            &&& 1 <= id_size <= 128
            &&& 1 <= request.max_files <= 100
            &&& 1 <= request.max_file_bytes <= 5_368_709_120
            &&& 60 <= request.expires_in_seconds <= 3600
            &&& 1 <= request.accept@.len() <= 32
        }),
        result matches Err(error) ==> {
            &&& after == before
            &&& limits::create_refusal(request) == Some(error)
        },
        result matches Ok(response) ==> {
            &&& only_changes(before, after, tunnel_id)
            &&& response.api_version@ == "v1"@
            &&& response.tunnel_id == tunnel_id
            &&& response.status == TunnelStatus::Waiting
            &&& response.desktop_capability@ == desktop_capability
            &&& vocabulary::is_later_by(
                response.expires_at,
                now,
                request.expires_in_seconds as int,
            )
            &&& exists|base: Seq<char>| #[trigger]
                vocabulary::is_base_of(base, before.portal_origin) && response.pairing_uri@ == base
                    + "/t/"@ + capability::hyphenated_text(tunnel_id) + "#c="@ + pairing_secret
        },
        result is Ok ==> {
            let made = after.tunnels[tunnel_id];
            &&& made.id == tunnel_id
            &&& made.status == TunnelStatus::Waiting
            &&& made.pairing == Some(vocabulary::digest_of(pairing_secret))
            &&& made.desktop == vocabulary::digest_of(desktop_capability)
            &&& made.phone is None
            &&& vocabulary::is_later_by(made.expires_at, now, request.expires_in_seconds as int)
            &&& made.max_files == request.max_files
            &&& made.max_file_bytes == request.max_file_bytes
            &&& made.accept.len() == request.accept@.len()
            &&& forall|i: int|
                0 <= i < made.accept.len() ==> #[trigger] made.accept[i] == request.accept@[i]@
            &&& forall|id: u128| !#[trigger] made.files.contains_key(id)
            &&& forall|ticket: Seq<u8>| !#[trigger] made.tickets.contains_key(ticket)
            &&& made.sequence == 0
        },
{
    terms::law_tunnel_limits(request);
    vocabulary::law_pairing_link(before.portal_origin, tunnel_id, pairing_secret);
    vocabulary::law_instants(now, now, request.expires_in_seconds as int);
}

/// A claim is granted exactly where the tunnel exists, is not over, still waits,
/// and the secret is the one whose digest it holds. It hands over the phone's
/// capability, of which the digest is kept, and spends the secret.
pub proof fn law_claiming(
    before: StateModel,
    after: StateModel,
    tunnel_id: u128,
    pairing_secret: Seq<char>,
    now: Timestamp,
    phone_capability: Seq<char>,
    stamp: EventStamp,
    result: Result<(ClaimTunnelResponse, TunnelEvent), ApiError>,
)
    requires
        state::claim_answer(
            before,
            after,
            tunnel_id,
            pairing_secret,
            now,
            phone_capability,
            stamp,
            result,
        ),
        before.tunnels[tunnel_id].sequence < u64::MAX,
    ensures
        ({
            let held = before.tunnels[tunnel_id];
            let refusal = if is_closed_to_all(before, tunnel_id, now) is Some {
                is_closed_to_all(before, tunnel_id, now)
            } else if held.status != TunnelStatus::Waiting || held.pairing is None {
                Some(ApiError::Conflict)
            } else if held.pairing != Some(vocabulary::digest_of(pairing_secret)) {
                Some(ApiError::Unauthorized)
            } else {
                None
            };
            match result {
                Err(error) => refusal == Some(error) && after == before,
                Ok((response, event)) => {
                    let paired = after.tunnels[tunnel_id];
                    &&& refusal is None
                    &&& only_changes(before, after, tunnel_id)
                    &&& keeps_terms(held, paired)
                    &&& paired.status == TunnelStatus::Connected
                    &&& paired.phone == Some(vocabulary::digest_of(phone_capability))
                    &&& paired.pairing is None
                    &&& paired.files == held.files
                    &&& paired.tickets == held.tickets
                    &&& paired.sequence == held.sequence + 1
                    &&& response.phone_capability@ == phone_capability
                    &&& response.expires_at == held.expires_at
                    &&& is_event(
                        event,
                        held,
                        held.sequence + 1,
                        stamp,
                        "tunnel.connected"@,
                        None,
                        None,
                    )
                },
            }
        }),
{
    vocabulary::law_instants(before.tunnels[tunnel_id].expires_at, now, 0);
}

/// What a request presents, and when it comes, in plain words.
proof fn lemma_visitor(
    server: StateModel,
    tunnel_id: u128,
    authorization: Option<Seq<u8>>,
    now: Timestamp,
)
    ensures
        ({
            let held = server.tunnels[tunnel_id];
            let digest = state::bearer_digest(authorization);
            &&& vocabulary::is_anonymous(authorization) <==> capability::bearer_token(
                authorization,
            ) is None
            &&& !vocabulary::is_anonymous(authorization) ==> {
                &&& vocabulary::shows(authorization, held.desktop) <==> held.desktop == digest
                &&& vocabulary::shows_phone(authorization, held) <==> held.phone == Some(digest)
            }
            &&& held.expires_at.at_or_before(now) <==> vocabulary::is_overdue(held, now)
        }),
{
    let held = server.tunnels[tunnel_id];
    vocabulary::law_shown_digests(authorization, held.desktop);
    if held.phone is Some {
        vocabulary::law_shown_digests(authorization, held.phone->0);
    }
    vocabulary::law_instants(held.expires_at, now, 0);
}

/// The request presents the desktop's capability or the phone's.
pub open spec fn is_party(authorization: Option<Seq<u8>>, tunnel: TunnelModel) -> bool {
    vocabulary::shows(authorization, tunnel.desktop) || vocabulary::shows_phone(
        authorization,
        tunnel,
    )
}

/// Either party reads a tunnel until it is cancelled or expires, and sees its
/// phase, its end and every file of it once, ordered by the instants at which
/// the files were declared.
pub proof fn law_reading(
    server: StateModel,
    tunnel_id: u128,
    authorization: Option<Seq<u8>>,
    now: Timestamp,
    result: Result<TunnelSnapshot, ApiError>,
)
    requires
        server.is_consistent(),
        state::snapshot_answer(server, tunnel_id, authorization, now, result),
    ensures
        ({
            let held = server.tunnels[tunnel_id];
            let refusal = is_turned_away(
                server,
                tunnel_id,
                authorization,
                now,
                is_party(authorization, held),
                true,
            );
            match result {
                Err(error) => refusal == Some(error),
                Ok(snapshot) => {
                    let listing = snapshot.files@;
                    &&& refusal is None
                    &&& snapshot.tunnel_id == tunnel_id
                    &&& snapshot.status == held.status
                    &&& snapshot.expires_at == held.expires_at
                    &&& forall|id: u128| #[trigger]
                        held.files.contains_key(id) ==> listing.contains(held.files[id].descriptor)
                    &&& forall|i: int|
                        0 <= i < listing.len() ==> held.files.contains_key(
                            (#[trigger] listing[i]).file_id,
                        ) && listing[i] == held.files[listing[i].file_id].descriptor
                    &&& forall|i: int, j: int|
                        0 <= i < j < listing.len() ==> (#[trigger] listing[i]).file_id != (
                        #[trigger] listing[j]).file_id
                    &&& forall|i: int, j: int|
                        0 <= i < j < listing.len() ==> !vocabulary::is_before(
                            (#[trigger] listing[j]).created_at,
                            (#[trigger] listing[i]).created_at,
                        )
                },
            }
        }),
{
    lemma_visitor(server, tunnel_id, authorization, now);
    if let Ok(snapshot) = result {
        let held = server.tunnels[tunnel_id];
        let listing = snapshot.files@;
        assert(held.is_consistent());
        assert forall|id: u128| #[trigger] held.files.contains_key(id) implies listing.contains(
            held.files[id].descriptor,
        ) by {
            tunnels::law_snapshots_are_complete(listing, held, id);
        }
        assert forall|i: int, j: int| 0 <= i < j < listing.len() implies !vocabulary::is_before(
            (#[trigger] listing[j]).created_at,
            (#[trigger] listing[i]).created_at,
        ) by {
            vocabulary::law_instants(listing[i].created_at, listing[j].created_at, 0);
        }
    }
}

/// The desktop, and nobody else, cancels a tunnel that is not over. All files
/// and tickets are gone.
pub proof fn law_cancelling(
    before: StateModel,
    after: StateModel,
    tunnel_id: u128,
    authorization: Option<Seq<u8>>,
    now: Timestamp,
    stamp: EventStamp,
    result: Result<TunnelEvent, ApiError>,
)
    requires
        state::cancel_answer(before, after, tunnel_id, authorization, now, stamp, result),
        before.tunnels[tunnel_id].sequence < u64::MAX,
    ensures
        ({
            let held = before.tunnels[tunnel_id];
            let refusal = is_turned_away(
                before,
                tunnel_id,
                authorization,
                now,
                vocabulary::shows(authorization, held.desktop),
                vocabulary::is_unfinished(held),
            );
            match result {
                Err(error) => refusal == Some(error) && after == before,
                Ok(event) => {
                    let closed = after.tunnels[tunnel_id];
                    &&& refusal is None
                    &&& only_changes(before, after, tunnel_id)
                    &&& keeps_terms(held, closed)
                    &&& keeps_capabilities(held, closed)
                    &&& closed.status == TunnelStatus::Cancelled
                    &&& forall|id: u128| !#[trigger] closed.files.contains_key(id)
                    &&& forall|ticket: Seq<u8>| !#[trigger] closed.tickets.contains_key(ticket)
                    &&& closed.sequence == held.sequence + 1
                    &&& is_event(
                        event,
                        held,
                        held.sequence + 1,
                        stamp,
                        "tunnel.cancelled"@,
                        None,
                        None,
                    )
                },
            }
        }),
{
    lemma_visitor(before, tunnel_id, authorization, now);
}

/// The paired phone, and nobody else, declares a file whose name, size, media
/// type and digest fit, as long as there is room for one more. The file is new:
/// it has the name, type and size that were declared, and no bytes.
pub proof fn law_declaring(
    before: StateModel,
    after: StateModel,
    tunnel_id: u128,
    authorization: Option<Seq<u8>>,
    request: DeclareFileRequest,
    now: Timestamp,
    file_id: u128,
    created_at: Timestamp,
    stamp: EventStamp,
    result: Result<(FileDescriptor, TunnelEvent), ApiError>,
)
    requires
        state::declare_answer(
            before,
            after,
            tunnel_id,
            authorization,
            request,
            now,
            file_id,
            created_at,
            stamp,
            result,
        ),
        before.tunnels[tunnel_id].sequence < u64::MAX,
    ensures
        ({
            let held = before.tunnels[tunnel_id];
            let turned_away = is_turned_away(
                before,
                tunnel_id,
                authorization,
                now,
                vocabulary::shows_phone(authorization, held),
                vocabulary::is_busy(held),
            );
            let refusal = if vocabulary::is_anonymous(authorization) {
                Some(ApiError::Unauthorized)
            } else if !terms::may_name_a_file(request.name@) {
                Some(ApiError::Invalid(InvalidRequest::FileName))
            } else if turned_away is Some {
                turned_away
            } else if held.files.dom().len() >= held.max_files || request.size_bytes
                > held.max_file_bytes {
                Some(ApiError::TooLarge)
            } else if !terms::is_welcome(held.accept, request.media_type@) {
                Some(ApiError::UnsupportedMedia)
            } else if !terms::digest_fits(request) {
                Some(ApiError::Invalid(InvalidRequest::Sha256))
            } else {
                None
            };
            match result {
                Err(error) => refusal == Some(error) && after == before,
                Ok((descriptor, event)) => {
                    let fuller = after.tunnels[tunnel_id];
                    &&& refusal is None
                    &&& only_changes(before, after, tunnel_id)
                    &&& keeps_terms(held, fuller)
                    &&& keeps_capabilities(held, fuller)
                    &&& fuller.status == held.status
                    &&& fuller.tickets == held.tickets
                    &&& fuller.sequence == held.sequence + 1
                    &&& forall|other: u128|
                        other != file_id ==> #[trigger] fuller.files.contains_key(other)
                            == held.files.contains_key(other) && fuller.files[other]
                            == held.files[other]
                    &&& fuller.files.contains_key(file_id)
                    &&& fuller.files[file_id].descriptor == descriptor
                    &&& fuller.files[file_id].upload.total == request.size_bytes
                    &&& fuller.files[file_id].upload.bytes.len() == 0
                    &&& !fuller.files[file_id].uploaded
                    &&& descriptor.file_id == file_id
                    &&& descriptor.name@ == request.name@
                    &&& descriptor.media_type@ == request.media_type@
                    &&& descriptor.size_bytes == request.size_bytes
                    &&& descriptor.bytes_transferred == 0
                    &&& descriptor.status == FileStatus::Declared
                    &&& descriptor.created_at == created_at
                    &&& is_event(
                        event,
                        held,
                        held.sequence + 1,
                        stamp,
                        "file.declared"@,
                        Some(file_id),
                        Some(0),
                    )
                },
            }
        }),
{
    lemma_visitor(before, tunnel_id, authorization, now);
    terms::law_file_names(request.name@);
    terms::law_accepted_media(before.tunnels[tunnel_id].accept, request.media_type@);
    if request.sha256 is Some {
        terms::law_written_digests(request.sha256->0@);
    }
}

/// Why the phone may not upload to the file, if it may not: only the paired
/// phone may, and only a declared file.
pub open spec fn upload_bar(
    server: StateModel,
    tunnel_id: u128,
    file_id: u128,
    authorization: Option<Seq<u8>>,
    now: Timestamp,
) -> Option<ApiError> {
    let held = server.tunnels[tunnel_id];
    let turned_away = is_turned_away(
        server,
        tunnel_id,
        authorization,
        now,
        vocabulary::shows_phone(authorization, held),
        vocabulary::is_busy(held),
    );
    if turned_away is Some {
        turned_away
    } else if !held.files.contains_key(file_id) {
        Some(ApiError::NotFound)
    } else {
        None
    }
}

/// The head of an upload request is admitted exactly where the phone may upload
/// to the file and the range, if there is one, is a range of the declared size
/// that this machine can address. The body that is then awaited is empty so far,
/// and belongs to that file, that range and that token.
pub proof fn law_beginning(
    server: StateModel,
    tunnel_id: u128,
    file_id: u128,
    authorization: Option<Seq<u8>>,
    content_range: Option<Seq<u8>>,
    now: Timestamp,
    result: Result<PendingUpload, ApiError>,
)
    requires
        state::begin_answer(
            server,
            tunnel_id,
            file_id,
            authorization,
            content_range,
            now,
            result,
        ),
    ensures
        ({
            let bar = upload_bar(server, tunnel_id, file_id, authorization, now);
            let size_bytes = server.tunnels[tunnel_id].files[file_id].descriptor.size_bytes;
            let asked = upload::range_asked(content_range, size_bytes);
            match result {
                Err(error) => {
                    ||| bar == Some(error)
                    ||| bar is None && asked == Err::<ContentRange, ApiError>(error)
                    ||| bar is None && error == ApiError::TooLarge && asked is Ok
                        && asked->Ok_0.end_exclusive - asked->Ok_0.start > usize::MAX
                },
                Ok(pending) => {
                    &&& bar is None
                    &&& asked == Ok::<ContentRange, ApiError>(pending@.range)
                    &&& pending@.range.end_exclusive - pending@.range.start <= usize::MAX
                    &&& pending@.tunnel_id == tunnel_id
                    &&& pending@.file_id == file_id
                    &&& pending@.body.len() == 0
                    &&& vocabulary::shows(authorization, pending@.supplied)
                    &&& content_range is None ==> pending@.range.start == 0
                        && pending@.range.end_exclusive == size_bytes && pending@.range.total
                        == size_bytes
                },
            }
        }),
{
    lemma_visitor(server, tunnel_id, authorization, now);
    vocabulary::law_shown_digests(authorization, state::bearer_digest(authorization));
}

/// A probe tells the phone how much of the file has arrived.
pub proof fn law_probing(
    server: StateModel,
    tunnel_id: u128,
    file_id: u128,
    authorization: Option<Seq<u8>>,
    now: Timestamp,
    result: Result<UploadResponse, ApiError>,
)
    requires
        server.is_consistent(),
        state::status_answer(server, tunnel_id, file_id, authorization, now, result),
    ensures
        ({
            let bar = upload_bar(server, tunnel_id, file_id, authorization, now);
            let file = server.tunnels[tunnel_id].files[file_id];
            match result {
                Err(error) => bar == Some(error),
                Ok(response) => bar is None && is_checkpoint(
                    response,
                    file.upload.bytes.len() as int,
                    file.descriptor.size_bytes as int,
                ),
            }
        }),
{
    lemma_visitor(server, tunnel_id, authorization, now);
    if let Ok(response) = result {
        let held = server.tunnels[tunnel_id];
        assert(held.is_consistent());
        assert(held.files[file_id].is_consistent());
        terms::law_resume_checkpoints(
            response,
            tunnel::progress_of(held.files[file_id].upload),
        );
    }
}

/// The answer says that `held` of `size` bytes have arrived.
pub open spec fn is_checkpoint(response: UploadResponse, held: int, size: int) -> bool {
    &&& vocabulary::writes(response.upload_offset@, held)
    &&& held == size ==> response.status == 204 && response.upload_complete@ == "true"@
    &&& held != size ==> response.status == 308 && response.upload_complete@ == "false"@
}

/// Why a finished upload request is refused before its bytes are looked at.
pub open spec fn commit_bar(server: StateModel, pending: PendingModel, now: Timestamp) -> Option<
    ApiError,
> {
    let held = server.tunnels[pending.tunnel_id];
    if pending.body.len() != pending.range.end_exclusive - pending.range.start {
        Some(
            ApiError::InvalidRange(
                RangeProblem::BodyLength {
                    received: pending.body.len() as u64,
                    required: (pending.range.end_exclusive - pending.range.start) as u64,
                },
            ),
        )
    } else if is_closed_to_all(server, pending.tunnel_id, now) is Some {
        is_closed_to_all(server, pending.tunnel_id, now)
    } else if held.phone != Some(pending.supplied) {
        Some(ApiError::Unauthorized)
    } else if !vocabulary::is_busy(held) {
        Some(ApiError::Conflict)
    } else if !held.files.contains_key(pending.file_id) {
        Some(ApiError::NotFound)
    } else {
        None
    }
}

/// The chunk brings nothing new to a file: it goes back to bytes that have
/// arrived, or is empty and an upload was accepted before.
pub open spec fn is_old_news(file: FileModel, pending: PendingModel) -> bool {
    pending.range.start < file.upload.bytes.len() || (pending.body.len() == 0 && file.uploaded)
}

/// A finished upload request is accepted exactly where the phone may still
/// upload to the file, its body is as long as its range, and the range either
/// continues the file or repeats what has arrived. Afterwards the file holds
/// what it held and, from there on, the body; the answer says how much that is.
pub proof fn law_committing(
    before: StateModel,
    after: StateModel,
    pending: PendingModel,
    now: Timestamp,
    progress: EventStamp,
    available: EventStamp,
    result: Result<(UploadResponse, Vec<TunnelEvent>), ApiError>,
)
    requires
        before.is_consistent(),
        pending.is_valid(),
        state::commit_answer(before, after, pending, now, progress, available, result),
        before.tunnels[pending.tunnel_id].sequence + 2 <= u64::MAX,
    ensures
        ({
            let held = before.tunnels[pending.tunnel_id];
            let file = held.files[pending.file_id];
            let bar = commit_bar(before, pending, now);
            let continues = pending.range.total == file.descriptor.size_bytes && (
            pending.range.start == file.upload.bytes.len() || ranges::repeats(
                file.upload,
                pending.range,
                pending.body,
            ));
            match result {
                Err(error) => {
                    &&& after == before
                    &&& bar is Some ==> bar == Some(error)
                    &&& bar is None ==> {
                        &&& !continues
                        &&& error is UploadConflict
                        &&& file.upload.refusal(pending.range, pending.body) == Some(
                            error->UploadConflict_0,
                        )
                    }
                },
                Ok((response, events)) => {
                    let reached = after.tunnels[pending.tunnel_id];
                    let grown = reached.files[pending.file_id];
                    let end = if pending.range.end_exclusive > file.upload.bytes.len() {
                        pending.range.end_exclusive as int
                    } else {
                        file.upload.bytes.len() as int
                    };
                    &&& bar is None
                    &&& continues
                    &&& only_changes(before, after, pending.tunnel_id)
                    &&& keeps_terms(held, reached)
                    &&& keeps_capabilities(held, reached)
                    &&& reached.tickets == held.tickets
                    &&& reached.sequence == held.sequence + events@.len()
                    &&& forall|other: u128|
                        other != pending.file_id ==> #[trigger] reached.files.contains_key(other)
                            == held.files.contains_key(other) && reached.files[other]
                            == held.files[other]
                    &&& reached.files.contains_key(pending.file_id)
                    &&& grown.upload.bytes.len() == end
                    &&& forall|i: int|
                        0 <= i < file.upload.bytes.len() ==> #[trigger] grown.upload.bytes[i]
                            == file.upload.bytes[i]
                    &&& forall|i: int|
                        pending.range.start <= i < pending.range.end_exclusive ==> #[trigger]
                            grown.upload.bytes[i] == pending.body[i - pending.range.start]
                    &&& is_checkpoint(response, end, file.descriptor.size_bytes as int)
                },
            }
        }),
{
    let held = before.tunnels[pending.tunnel_id];
    let file = held.files[pending.file_id];
    vocabulary::law_instants(held.expires_at, now, 0);
    if commit_bar(before, pending, now) is None {
        assert(held.is_consistent());
        assert(file.is_consistent());
        ranges::law_accepted_chunks(file.upload, pending.range, pending.body);
        if let Ok((response, events)) = result {
            ranges::law_chunk_effects(file.upload, pending.range, pending.body);
            if pending.body.len() == 0 {
                assert(file.upload.bytes + pending.body =~= file.upload.bytes);
            }
            terms::law_resume_checkpoints(
                response,
                file.upload.outcome(pending.range, pending.body),
            );
        } else {
            terms::law_refused_chunks(file.upload.refusal(pending.range, pending.body)->0);
        }
    }
}

/// What an accepted chunk announces. One that brings nothing new announces
/// nothing and changes nothing. Any other announces progress, with the number of
/// bytes that the tunnel then holds of the file, which is also what its
/// descriptor says; and exactly where that number becomes the declared size
/// for the first time, it announces next, with that size, that the file is
/// available.
pub proof fn law_announcing_progress(
    before: StateModel,
    after: StateModel,
    pending: PendingModel,
    now: Timestamp,
    progress: EventStamp,
    available: EventStamp,
    response: UploadResponse,
    events: Vec<TunnelEvent>,
)
    requires
        before.is_consistent(),
        pending.is_valid(),
        state::commit_answer(
            before,
            after,
            pending,
            now,
            progress,
            available,
            Ok::<(UploadResponse, Vec<TunnelEvent>), ApiError>((response, events)),
        ),
        before.tunnels[pending.tunnel_id].sequence + 2 <= u64::MAX,
    ensures
        ({
            let held = before.tunnels[pending.tunnel_id];
            let file = held.files[pending.file_id];
            let reached = after.tunnels[pending.tunnel_id];
            let grown = reached.files[pending.file_id];
            let size = file.descriptor.size_bytes;
            let finishes = file.upload.bytes.len() < size && grown.upload.bytes.len() == size;
            &&& is_old_news(file, pending) ==> after == before && events@.len() == 0
            &&& !is_old_news(file, pending) ==> {
                &&& events@.len() == if finishes { 2int } else { 1int }
                &&& is_event(
                    events@[0],
                    held,
                    held.sequence + 1,
                    progress,
                    "file.progress"@,
                    Some(pending.file_id),
                    Some(grown.upload.bytes.len() as u64),
                )
                &&& finishes ==> is_event(
                    events@[1],
                    held,
                    held.sequence + 2,
                    available,
                    "file.available"@,
                    Some(pending.file_id),
                    Some(size),
                )
                &&& reached.status == TunnelStatus::Transferring
                &&& grown.uploaded
                &&& grown.descriptor.bytes_transferred == grown.upload.bytes.len()
                &&& grown.descriptor.status == if grown.upload.bytes.len() == size {
                    FileStatus::Available
                } else {
                    FileStatus::Uploading
                }
                &&& grown.descriptor.file_id == file.descriptor.file_id
                &&& grown.descriptor.name == file.descriptor.name
                &&& grown.descriptor.media_type == file.descriptor.media_type
                &&& grown.descriptor.size_bytes == size
                &&& grown.descriptor.created_at == file.descriptor.created_at
                &&& grown.upload.total == file.upload.total
            }
        }),
{
    let held = before.tunnels[pending.tunnel_id];
    let file = held.files[pending.file_id];
    assert(held.is_consistent());
    assert(file.is_consistent());
    ranges::law_chunk_effects(file.upload, pending.range, pending.body);
    if pending.body.len() == 0 {
        assert(file.upload.bytes + pending.body =~= file.upload.bytes);
    }
    if is_old_news(file, pending) {
        assert(before.tunnels.insert(pending.tunnel_id, held) =~= before.tunnels);
    }
}

/// The media type may stand in a header: no byte of it is a control character
/// other than the tab.
pub open spec fn may_travel(media_type: Seq<char>) -> bool {
    let bytes = vstd::utf8::encode_utf8(media_type);
    forall|i: int|
        0 <= i < bytes.len() ==> #[trigger] bytes[i] == 9 || (bytes[i] >= 32 && bytes[i] != 127)
}

/// The desktop, and nobody else, fetches a file that has arrived whole, while
/// the parties are paired. It gets all of its bytes, under the media type that
/// the file was declared with, character for character, wherever a header can
/// carry it. The file counts as fetched; once every file does, the tunnel is
/// complete and its tickets are gone.
pub proof fn law_fetching(
    before: StateModel,
    after: StateModel,
    tunnel_id: u128,
    file_id: u128,
    authorization: Option<Seq<u8>>,
    now: Timestamp,
    stamp: EventStamp,
    result: Result<(Download, TunnelEvent), ApiError>,
)
    requires
        before.is_consistent(),
        state::download_answer(
            before,
            after,
            tunnel_id,
            file_id,
            authorization,
            now,
            stamp,
            result,
        ),
        before.tunnels[tunnel_id].sequence < u64::MAX,
    ensures
        ({
            let held = before.tunnels[tunnel_id];
            let file = held.files[file_id];
            let turned_away = is_turned_away(
                before,
                tunnel_id,
                authorization,
                now,
                vocabulary::shows(authorization, held.desktop),
                vocabulary::is_busy(held),
            );
            let refusal = if turned_away is Some {
                turned_away
            } else if !held.files.contains_key(file_id) {
                Some(ApiError::NotFound)
            } else if file.upload.bytes.len() != file.descriptor.size_bytes {
                Some(ApiError::Conflict)
            } else {
                None
            };
            match result {
                Err(error) => refusal == Some(error) && after == before,
                Ok((download, event)) => {
                    let reached = after.tunnels[tunnel_id];
                    let fetched = reached.files[file_id];
                    let finished = forall|id: u128|
                        #![trigger held.files.contains_key(id)]
                        held.files.contains_key(id) && id != file_id
                            ==> held.files[id].descriptor.status == FileStatus::Downloaded;
                    &&& refusal is None
                    &&& download.content@ == file.upload.bytes
                    &&& may_travel(file.descriptor.media_type@) ==> download.content_type@
                        == file.descriptor.media_type@
                    &&& !may_travel(file.descriptor.media_type@) ==> download.content_type@
                        == "application/octet-stream"@
                    &&& only_changes(before, after, tunnel_id)
                    &&& keeps_terms(held, reached)
                    &&& keeps_capabilities(held, reached)
                    &&& reached.sequence == held.sequence + 1
                    &&& forall|other: u128|
                        other != file_id ==> #[trigger] reached.files.contains_key(other)
                            == held.files.contains_key(other) && reached.files[other]
                            == held.files[other]
                    &&& reached.files.contains_key(file_id)
                    &&& fetched.upload == file.upload
                    &&& fetched.uploaded == file.uploaded
                    &&& fetched.descriptor.status == FileStatus::Downloaded
                    &&& fetched.descriptor.file_id == file.descriptor.file_id
                    &&& fetched.descriptor.name == file.descriptor.name
                    &&& fetched.descriptor.media_type == file.descriptor.media_type
                    &&& fetched.descriptor.size_bytes == file.descriptor.size_bytes
                    &&& fetched.descriptor.bytes_transferred == file.descriptor.bytes_transferred
                    &&& fetched.descriptor.created_at == file.descriptor.created_at
                    &&& finished ==> reached.status == TunnelStatus::Complete && forall|
                        ticket: Seq<u8>,
                    | !#[trigger] reached.tickets.contains_key(ticket)
                    &&& !finished ==> reached.status == held.status && reached.tickets
                        == held.tickets
                    &&& is_event(
                        event,
                        held,
                        held.sequence + 1,
                        stamp,
                        "file.downloaded"@,
                        Some(file_id),
                        Some(file.upload.bytes.len() as u64),
                    )
                },
            }
        }),
{
    lemma_visitor(before, tunnel_id, authorization, now);
    let held = before.tunnels[tunnel_id];
    let file = held.files[file_id];
    if before.tunnels.contains_key(tunnel_id) && held.files.contains_key(file_id) {
        assert(held.is_consistent());
        assert(file.is_consistent());
    }
    if result is Ok {
        tunnels::law_last_fetch_completes(
            held,
            file_id,
            tunnels::Step::Download {
                now,
                supplied: state::bearer_digest(authorization),
                file_id,
            },
        );
        let media_type = file.descriptor.media_type@;
        let bytes = vstd::utf8::encode_utf8(media_type);
        if header::is_header_value(media_type) {
            assert forall|i: int| 0 <= i < bytes.len() implies #[trigger] bytes[i] == 9 || (bytes[i]
                >= 32 && bytes[i] != 127) by {
                assert(header::is_value_byte(bytes[i]));
            }
        }
        if may_travel(media_type) {
            assert forall|i: int| 0 <= i < bytes.len() implies header::is_value_byte(
                #[trigger] bytes[i],
            ) by {}
        }
    }
}

/// Every media type of visible ASCII may stand in a header, so a fetch answers
/// with it unchanged.
pub proof fn law_visible_media_types_travel(media_type: Seq<char>)
    requires
        forall|i: int| 0 <= i < media_type.len() ==> '!' <= #[trigger] media_type[i] <= '~',
    ensures
        may_travel(media_type),
        state::content_type_of(media_type) == media_type,
{
    assert(vstd::utf8::is_ascii_chars(media_type));
    vstd::utf8::is_ascii_chars_encode_utf8(media_type);
    let bytes = vstd::utf8::encode_utf8(media_type);
    assert forall|i: int| 0 <= i < bytes.len() implies #[trigger] bytes[i] >= 33 && bytes[i]
        <= 126 by {
        assert('!' <= media_type[i] <= '~');
        assert(media_type[i] as u8 == bytes[i]);
    }
    assert forall|i: int| 0 <= i < bytes.len() implies header::is_value_byte(
        #[trigger] bytes[i],
    ) by {}
}

/// Either party mints tickets for a tunnel that is not over. A ticket is kept as
/// its digest, and ends thirty seconds after the instant at which it was minted.
pub proof fn law_minting(
    before: StateModel,
    after: StateModel,
    tunnel_id: u128,
    authorization: Option<Seq<u8>>,
    now: Timestamp,
    ticket: Seq<char>,
    minted_at: Timestamp,
    result: Result<EventTicketResponse, ApiError>,
)
    requires
        state::ticket_answer(
            before,
            after,
            tunnel_id,
            authorization,
            now,
            ticket,
            minted_at,
            result,
        ),
        minted_at.seconds + 30 <= i64::MAX,
    ensures
        ({
            let held = before.tunnels[tunnel_id];
            let refusal = is_turned_away(
                before,
                tunnel_id,
                authorization,
                now,
                is_party(authorization, held),
                vocabulary::is_unfinished(held),
            );
            match result {
                Err(error) => refusal == Some(error) && after == before,
                Ok(response) => {
                    let reached = after.tunnels[tunnel_id];
                    let digest = vocabulary::digest_of(ticket);
                    &&& refusal is None
                    &&& response.ticket@ == ticket
                    &&& vocabulary::is_later_by(response.expires_at, minted_at, 30)
                    &&& only_changes(before, after, tunnel_id)
                    &&& keeps_terms(held, reached)
                    &&& keeps_capabilities(held, reached)
                    &&& reached.status == held.status
                    &&& reached.files == held.files
                    &&& reached.sequence == held.sequence
                    &&& reached.tickets.contains_key(digest)
                    &&& vocabulary::is_later_by(reached.tickets[digest], minted_at, 30)
                    &&& forall|other: Seq<u8>|
                        other != digest ==> #[trigger] reached.tickets.contains_key(other)
                            == held.tickets.contains_key(other) && reached.tickets[other]
                            == held.tickets[other]
                },
            }
        }),
{
    lemma_visitor(before, tunnel_id, authorization, now);
    vocabulary::law_instants(minted_at, minted_at, 30);
}

/// A ticket that the tunnel knows is used up when it is presented, while the
/// tunnel is not over, and admits the subscriber exactly where its end has not
/// come. Nothing else admits anyone.
pub proof fn law_subscribing(
    before: StateModel,
    after: StateModel,
    tunnel_id: u128,
    ticket: Seq<char>,
    now: Timestamp,
    redeemed_at: Timestamp,
    result: Result<(), ApiError>,
)
    requires
        state::redeem_answer(before, after, tunnel_id, ticket, now, redeemed_at, result),
    ensures
        ({
            let held = before.tunnels[tunnel_id];
            let digest = vocabulary::digest_of(ticket);
            let refusal = if is_closed_to_all(before, tunnel_id, now) is Some {
                is_closed_to_all(before, tunnel_id, now)
            } else if !vocabulary::is_unfinished(held) {
                Some(ApiError::Conflict)
            } else if !held.tickets.contains_key(digest) {
                Some(ApiError::Unauthorized)
            } else {
                None
            };
            &&& refusal is Some ==> result == Err::<(), ApiError>(refusal->0) && after == before
            &&& refusal is None ==> {
                let reached = after.tunnels[tunnel_id];
                &&& vocabulary::is_before(redeemed_at, held.tickets[digest]) ==> result is Ok
                &&& !vocabulary::is_before(redeemed_at, held.tickets[digest]) ==> result == Err::<
                    (),
                    ApiError,
                >(ApiError::Unauthorized)
                &&& only_changes(before, after, tunnel_id)
                &&& keeps_terms(held, reached)
                &&& keeps_capabilities(held, reached)
                &&& reached.status == held.status
                &&& reached.files == held.files
                &&& reached.sequence == held.sequence
                &&& !reached.tickets.contains_key(digest)
                &&& forall|other: Seq<u8>|
                    other != digest ==> #[trigger] reached.tickets.contains_key(other)
                        == held.tickets.contains_key(other) && reached.tickets[other]
                        == held.tickets[other]
            }
        }),
{
    let held = before.tunnels[tunnel_id];
    vocabulary::law_instants(held.expires_at, now, 0);
    vocabulary::law_instants(held.tickets[vocabulary::digest_of(ticket)], redeemed_at, 0);
}

/// Whether further events can be numbered is a matter of the last number alone.
pub proof fn law_event_room(server: StateModel, tunnel_id: u128, count: int)
    ensures
        server.has_event_room(tunnel_id, count) <==> !server.tunnels.contains_key(tunnel_id)
            || server.tunnels[tunnel_id].sequence + count <= u64::MAX,
{
}

/// What holds of every tunnel: each file holds as many bytes as its descriptor
/// says and no more than were declared, there are no more and no larger files
/// than allowed, the pairing secret is gone once there is a phone, and a complete
/// or cancelled tunnel has no tickets.
pub proof fn law_what_is_consistent(server: StateModel, tunnel_id: u128, file_id: u128)
    requires
        server.is_consistent(),
        server.tunnels.contains_key(tunnel_id),
    ensures
        ({
            let held = server.tunnels[tunnel_id];
            &&& held.id == tunnel_id
            &&& held.pairing is Some <==> held.phone is None
            &&& held.status == TunnelStatus::Waiting ==> held.phone is None
            &&& vocabulary::is_busy(held) || held.status == TunnelStatus::Complete
                ==> held.phone is Some
            &&& held.files.dom().len() <= held.max_files
            &&& held.files.contains_key(file_id) ==> {
                let file = held.files[file_id];
                &&& file.descriptor.file_id == file_id
                &&& file.descriptor.bytes_transferred == file.upload.bytes.len()
                &&& file.upload.bytes.len() <= file.descriptor.size_bytes
                &&& file.upload.total == file.descriptor.size_bytes
                &&& file.descriptor.size_bytes <= held.max_file_bytes
                &&& file.descriptor.status == FileStatus::Available ==> file.upload.bytes.len()
                    == file.descriptor.size_bytes
                &&& file.descriptor.status == FileStatus::Declared ==> file.upload.bytes.len() == 0
                &&& held.status == TunnelStatus::Complete ==> file.descriptor.status
                    == FileStatus::Downloaded
                &&& held.status != TunnelStatus::Cancelled && held.status != TunnelStatus::Waiting
            }
            &&& held.status == TunnelStatus::Complete || held.status == TunnelStatus::Cancelled
                ==> forall|ticket: Seq<u8>| !#[trigger] held.tickets.contains_key(ticket)
        }),
{
    let held = server.tunnels[tunnel_id];
    assert(held.is_consistent());
    if held.files.contains_key(file_id) {
        assert(held.files[file_id].is_consistent());
    }
}

} // verus!
