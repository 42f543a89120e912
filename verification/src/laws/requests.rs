//! Laws of requests to a server with many tunnels.
use vstd::prelude::*;

use crate::capability;
use crate::laws::tokens;
use crate::laws::tunnels;
use crate::laws::tunnels::Step;
use crate::limits;
use crate::problem::ApiError;
use crate::protocol::Operation;
use crate::resumable::AppendOutcome;
use crate::state;
use crate::state::{Download, StateModel};
use crate::time::Timestamp;
use crate::tunnel;
use crate::tunnel::EventStamp;
use crate::upload::{PendingModel, UploadResponse};
use crate::{
    ClaimTunnelResponse, CreateTunnelRequest, CreateTunnelResponse, DeclareFileRequest,
    EventTicketResponse, FileDescriptor, TunnelEvent,
};

verus! {

/// Nothing happened, or one tunnel answered one request and every other tunnel
/// is as it was.
pub open spec fn is_one_answer(
    before: StateModel,
    after: StateModel,
    tunnel_id: u128,
    step: Step,
) -> bool {
    ||| after == before
    ||| {
        &&& before.tunnels.contains_key(tunnel_id)
        &&& step.refusal(before.tunnels[tunnel_id]) is None
        &&& after == before.with_tunnel(tunnel_id, step.granted(before.tunnels[tunnel_id]))
    }
}

/// The answer to a claim, with its event, is that of the addressed tunnel; no
/// other is touched.
pub proof fn law_claim_touches_one_tunnel(
    before: StateModel,
    after: StateModel,
    tunnel_id: u128,
    pairing_secret: Seq<char>,
    now: Timestamp,
    phone_capability: Seq<char>,
    stamp: EventStamp,
    result: Result<(ClaimTunnelResponse, TunnelEvent), ApiError>,
)
    requires
        state::claim_answer(
            before,
            after,
            tunnel_id,
            pairing_secret,
            now,
            phone_capability,
            stamp,
            result,
        ),
    ensures
        is_one_answer(
            before,
            after,
            tunnel_id,
            Step::Claim {
                now,
                supplied: capability::token_digest(pairing_secret),
                phone: capability::token_digest(phone_capability),
            },
        ),
        result is Err ==> after == before,
        result matches Ok((_, event)) ==> seq![event] == tunnels::announced(
            before.tunnels[tunnel_id],
            Step::Claim {
                now,
                supplied: capability::token_digest(pairing_secret),
                phone: capability::token_digest(phone_capability),
            },
            stamp,
            stamp,
        ),
{
}

/// The answer to a cancellation, with its event, is that of the addressed
/// tunnel; no other is touched.
pub proof fn law_cancel_touches_one_tunnel(
    before: StateModel,
    after: StateModel,
    tunnel_id: u128,
    authorization: Option<Seq<u8>>,
    now: Timestamp,
    stamp: EventStamp,
    result: Result<TunnelEvent, ApiError>,
)
    requires
        state::cancel_answer(before, after, tunnel_id, authorization, now, stamp, result),
    ensures
        is_one_answer(
            before,
            after,
            tunnel_id,
            Step::Cancel { now, supplied: state::bearer_digest(authorization) },
        ),
        result is Err ==> after == before,
        result matches Ok(event) ==> seq![event] == tunnels::announced(
            before.tunnels[tunnel_id],
            Step::Cancel { now, supplied: state::bearer_digest(authorization) },
            stamp,
            stamp,
        ),
{
}

/// The answer to a declaration, with its event, is that of the addressed tunnel;
/// no other is touched.
pub proof fn law_declare_touches_one_tunnel(
    before: StateModel,
    after: StateModel,
    tunnel_id: u128,
    authorization: Option<Seq<u8>>,
    request: DeclareFileRequest,
    now: Timestamp,
    file_id: u128,
    created_at: Timestamp,
    stamp: EventStamp,
    result: Result<(FileDescriptor, TunnelEvent), ApiError>,
)
    requires
        state::declare_answer(
            before,
            after,
            tunnel_id,
            authorization,
            request,
            now,
            file_id,
            created_at,
            stamp,
            result,
        ),
    ensures
        is_one_answer(
            before,
            after,
            tunnel_id,
            Step::Declare {
                now,
                supplied: state::bearer_digest(authorization),
                request,
                file_id,
                created_at,
            },
        ),
        result is Err ==> after == before,
        result matches Ok((_, event)) ==> seq![event] == tunnels::announced(
            before.tunnels[tunnel_id],
            Step::Declare {
                now,
                supplied: state::bearer_digest(authorization),
                request,
                file_id,
                created_at,
            },
            stamp,
            stamp,
        ),
{
}

/// The answer to a finished upload request, with its events, is that of the
/// addressed tunnel; no other is touched.
pub proof fn law_commit_touches_one_tunnel(
    before: StateModel,
    after: StateModel,
    pending: PendingModel,
    now: Timestamp,
    progress: EventStamp,
    available: EventStamp,
    result: Result<(UploadResponse, Vec<TunnelEvent>), ApiError>,
)
    requires
        state::commit_answer(before, after, pending, now, progress, available, result),
    ensures
        is_one_answer(
            before,
            after,
            pending.tunnel_id,
            Step::Commit {
                now,
                supplied: pending.supplied,
                file_id: pending.file_id,
                range: pending.range,
                chunk: pending.body,
            },
        ),
        result is Err ==> after == before,
        result matches Ok((_, events)) ==> events@ == tunnels::announced(
            before.tunnels[pending.tunnel_id],
            Step::Commit {
                now,
                supplied: pending.supplied,
                file_id: pending.file_id,
                range: pending.range,
                chunk: pending.body,
            },
            progress,
            available,
        ),
{
}

/// The answer to a fetch, with its event, is that of the addressed tunnel; no
/// other is touched.
pub proof fn law_download_touches_one_tunnel(
    before: StateModel,
    after: StateModel,
    tunnel_id: u128,
    file_id: u128,
    authorization: Option<Seq<u8>>,
    now: Timestamp,
    stamp: EventStamp,
    result: Result<(Download, TunnelEvent), ApiError>,
)
    requires
        state::download_answer(
            before,
            after,
            tunnel_id,
            file_id,
            authorization,
            now,
            stamp,
            result,
        ),
    ensures
        is_one_answer(
            before,
            after,
            tunnel_id,
            Step::Download { now, supplied: state::bearer_digest(authorization), file_id },
        ),
        result is Err ==> after == before,
        result matches Ok((_, event)) ==> seq![event] == tunnels::announced(
            before.tunnels[tunnel_id],
            Step::Download { now, supplied: state::bearer_digest(authorization), file_id },
            stamp,
            stamp,
        ),
{
}

/// The answer to a request for a ticket is that of the addressed tunnel; no
/// other is touched.
pub proof fn law_ticket_touches_one_tunnel(
    before: StateModel,
    after: StateModel,
    tunnel_id: u128,
    authorization: Option<Seq<u8>>,
    now: Timestamp,
    ticket: Seq<char>,
    minted_at: Timestamp,
    result: Result<EventTicketResponse, ApiError>,
)
    requires
        state::ticket_answer(
            before,
            after,
            tunnel_id,
            authorization,
            now,
            ticket,
            minted_at,
            result,
        ),
    ensures
        is_one_answer(
            before,
            after,
            tunnel_id,
            Step::Mint {
                now,
                supplied: state::bearer_digest(authorization),
                ticket: capability::token_digest(ticket),
                expires_at: minted_at.plus(state::EVENT_TICKET_SECONDS as int),
            },
        ),
        result is Err ==> after == before,
{
}

/// The answer to a subscriber is that of the addressed tunnel; no other is
/// touched. A refusal changes nothing but that an expired ticket is gone.
pub proof fn law_redeem_touches_one_tunnel(
    before: StateModel,
    after: StateModel,
    tunnel_id: u128,
    ticket: Seq<char>,
    now: Timestamp,
    redeemed_at: Timestamp,
    result: Result<(), ApiError>,
)
    requires
        state::redeem_answer(before, after, tunnel_id, ticket, now, redeemed_at, result),
    ensures
        is_one_answer(
            before,
            after,
            tunnel_id,
            Step::Redeem { now, ticket: capability::token_digest(ticket) },
        ),
{
}

/// A new tunnel leaves every other tunnel as it was.
pub proof fn law_create_touches_no_other_tunnel(
    before: StateModel,
    after: StateModel,
    request: CreateTunnelRequest,
    tunnel_id: u128,
    pairing_secret: Seq<char>,
    desktop_capability: Seq<char>,
    now: Timestamp,
    result: Result<CreateTunnelResponse, ApiError>,
    other: u128,
)
    requires
        state::create_answer(
            before,
            after,
            request,
            tunnel_id,
            pairing_secret,
            desktop_capability,
            now,
            result,
        ),
        other != tunnel_id,
    ensures
        after.tunnels.contains_key(other) == before.tunnels.contains_key(other),
        after.tunnels[other] == before.tunnels[other],
        result is Err ==> after == before,
{
}

/// A new tunnel can be claimed with its secret until it expires; the lifetime
/// is the one that was asked for.
pub proof fn law_new_tunnel_can_be_claimed(
    before: StateModel,
    after: StateModel,
    request: CreateTunnelRequest,
    tunnel_id: u128,
    pairing_secret: Seq<char>,
    desktop_capability: Seq<char>,
    created: Timestamp,
    result: Result<CreateTunnelResponse, ApiError>,
    now: Timestamp,
)
    requires
        limits::create_refusal(request) is None,
        state::create_answer(
            before,
            after,
            request,
            tunnel_id,
            pairing_secret,
            desktop_capability,
            created,
            result,
        ),
        created.seconds + request.expires_in_seconds <= i64::MAX,
    ensures
        after.claim_refusal(tunnel_id, pairing_secret, now) is None <==> now.seconds
            < created.seconds + request.expires_in_seconds || (now.seconds == created.seconds
            + request.expires_in_seconds && now.nanos < created.nanos),
{
}

/// The desktop capability of a new tunnel reads it, cancels it and mints
/// tickets for it, from the moment the tunnel exists.
pub proof fn law_desktop_capability_is_accepted(
    before: StateModel,
    after: StateModel,
    request: CreateTunnelRequest,
    tunnel_id: u128,
    pairing_secret: Seq<char>,
    desktop_capability: Seq<char>,
    created: Timestamp,
    result: Result<CreateTunnelResponse, ApiError>,
    now: Timestamp,
)
    requires
        limits::create_refusal(request) is None,
        state::create_answer(
            before,
            after,
            request,
            tunnel_id,
            pairing_secret,
            desktop_capability,
            created,
            result,
        ),
        tokens::is_presentable(desktop_capability),
        !after.tunnels[tunnel_id].expires_at.at_or_before(now),
    ensures
        ({
            let authorization = Some(tokens::bearer_header(desktop_capability));
            &&& after.snapshot_refusal(tunnel_id, authorization, now) is None
            &&& after.cancel_refusal(tunnel_id, authorization, now) is None
            &&& after.ticket_refusal(tunnel_id, authorization, now) is None
        }),
{
    tokens::law_bearer_token_is_read_back(desktop_capability);
}

/// The capability that a claim hands to the phone reads the tunnel, mints
/// tickets for it and may declare and upload files, from the moment of the claim
/// until the tunnel expires.
pub proof fn law_phone_capability_is_accepted(
    before: StateModel,
    after: StateModel,
    tunnel_id: u128,
    pairing_secret: Seq<char>,
    claimed: Timestamp,
    phone_capability: Seq<char>,
    stamp: EventStamp,
    result: Result<(ClaimTunnelResponse, TunnelEvent), ApiError>,
    now: Timestamp,
)
    requires
        before.claim_refusal(tunnel_id, pairing_secret, claimed) is None,
        state::claim_answer(
            before,
            after,
            tunnel_id,
            pairing_secret,
            claimed,
            phone_capability,
            stamp,
            result,
        ),
        tokens::is_presentable(phone_capability),
        !after.tunnels[tunnel_id].expires_at.at_or_before(now),
    ensures
        ({
            let authorization = Some(tokens::bearer_header(phone_capability));
            let digest = state::bearer_digest(authorization);
            &&& after.snapshot_refusal(tunnel_id, authorization, now) is None
            &&& after.ticket_refusal(tunnel_id, authorization, now) is None
            &&& after.tunnels[tunnel_id].phone_gate(digest, Operation::DeclareFile) is None
            &&& after.tunnels[tunnel_id].phone_gate(digest, Operation::UploadFile) is None
        }),
{
    tokens::law_bearer_token_is_read_back(phone_capability);
}

/// A request that presents no bearer token is refused as unauthorized, whatever
/// it asks for and whether or not the tunnel exists.
pub proof fn law_a_token_is_required(
    server: StateModel,
    tunnel_id: u128,
    file_id: u128,
    authorization: Option<Seq<u8>>,
    request: DeclareFileRequest,
    now: Timestamp,
)
    requires
        capability::bearer_token(authorization) is None,
    ensures
        server.snapshot_refusal(tunnel_id, authorization, now) == Some(ApiError::Unauthorized),
        server.cancel_refusal(tunnel_id, authorization, now) == Some(ApiError::Unauthorized),
        server.declare_refusal(tunnel_id, authorization, request, now) == Some(
            ApiError::Unauthorized,
        ),
        server.upload_refusal(tunnel_id, file_id, authorization, now) == Some(
            ApiError::Unauthorized,
        ),
        server.download_refusal(tunnel_id, file_id, authorization, now) == Some(
            ApiError::Unauthorized,
        ),
        server.ticket_refusal(tunnel_id, authorization, now) == Some(ApiError::Unauthorized),
{
}

/// An expired tunnel answers every request that presents a token as expired, and
/// shows nothing any more.
pub proof fn law_expired_tunnels_show_nothing(
    server: StateModel,
    tunnel_id: u128,
    file_id: u128,
    authorization: Option<Seq<u8>>,
    ticket: Seq<char>,
    now: Timestamp,
)
    requires
        capability::bearer_token(authorization) is Some,
        server.tunnels.contains_key(tunnel_id),
        server.tunnels[tunnel_id].expires_at.at_or_before(now),
    ensures
        server.snapshot_refusal(tunnel_id, authorization, now) == Some(ApiError::Expired),
        server.cancel_refusal(tunnel_id, authorization, now) == Some(ApiError::Expired),
        server.upload_refusal(tunnel_id, file_id, authorization, now) == Some(ApiError::Expired),
        server.download_refusal(tunnel_id, file_id, authorization, now) == Some(ApiError::Expired),
        server.ticket_refusal(tunnel_id, authorization, now) == Some(ApiError::Expired),
        server.claim_refusal(tunnel_id, ticket, now) == Some(ApiError::Expired),
        server.redeem_refusal(tunnel_id, ticket, now) == Some(ApiError::Expired),
{
}

/// A fresh ticket admits a subscriber for thirty seconds, and not after.
pub proof fn law_ticket_lives_thirty_seconds(
    before: StateModel,
    after: StateModel,
    tunnel_id: u128,
    authorization: Option<Seq<u8>>,
    minting: Timestamp,
    ticket: Seq<char>,
    minted_at: Timestamp,
    minted: Result<EventTicketResponse, ApiError>,
    last: StateModel,
    now: Timestamp,
    redeemed_at: Timestamp,
    redeemed: Result<(), ApiError>,
)
    requires
        before.ticket_refusal(tunnel_id, authorization, minting) is None,
        state::ticket_answer(
            before,
            after,
            tunnel_id,
            authorization,
            minting,
            ticket,
            minted_at,
            minted,
        ),
        minted_at.seconds + 30 <= i64::MAX,
        state::redeem_answer(after, last, tunnel_id, ticket, now, redeemed_at, redeemed),
    ensures
        redeemed is Ok <==> !after.tunnels[tunnel_id].expires_at.at_or_before(now) && (
        redeemed_at.seconds < minted_at.seconds + 30 || (redeemed_at.seconds == minted_at.seconds
            + 30 && redeemed_at.nanos < minted_at.nanos)),
{
    let tunnel = before.tunnels[tunnel_id];
    assert(after.tunnels[tunnel_id].tickets.contains_key(capability::token_digest(ticket)));
}

/// A ticket that was found is refused when it is presented again, whether it
/// admitted the subscriber or turned out to have expired.
pub proof fn law_ticket_is_spent(
    before: StateModel,
    after: StateModel,
    tunnel_id: u128,
    ticket: Seq<char>,
    now: Timestamp,
    redeemed_at: Timestamp,
    result: Result<(), ApiError>,
    later: Timestamp,
)
    requires
        state::redeem_answer(before, after, tunnel_id, ticket, now, redeemed_at, result),
        before.redeem_refusal(tunnel_id, ticket, now) is None,
    ensures
        after.redeem_refusal(tunnel_id, ticket, later) is Some,
{
}

/// A secret that was exchanged is refused when it is presented again.
pub proof fn law_pairing_secret_is_spent(
    before: StateModel,
    after: StateModel,
    tunnel_id: u128,
    pairing_secret: Seq<char>,
    now: Timestamp,
    phone_capability: Seq<char>,
    stamp: EventStamp,
    result: Result<(ClaimTunnelResponse, TunnelEvent), ApiError>,
    later: Timestamp,
)
    requires
        state::claim_answer(
            before,
            after,
            tunnel_id,
            pairing_secret,
            now,
            phone_capability,
            stamp,
            result,
        ),
        result is Ok,
    ensures
        after.claim_refusal(tunnel_id, pairing_secret, later) is Some,
{
}

/// A probe after an upload request tells the phone the same offset as the
/// answer to that request.
pub proof fn law_probe_agrees_with_the_answer(
    before: StateModel,
    after: StateModel,
    pending: PendingModel,
    now: Timestamp,
    progress: EventStamp,
    available: EventStamp,
    response: UploadResponse,
    events: Vec<TunnelEvent>,
    authorization: Option<Seq<u8>>,
    later: Timestamp,
    probe: UploadResponse,
)
    requires
        state::commit_answer(
            before,
            after,
            pending,
            now,
            progress,
            available,
            Ok::<(UploadResponse, Vec<TunnelEvent>), ApiError>((response, events)),
        ),
        state::status_answer(
            after,
            pending.tunnel_id,
            pending.file_id,
            authorization,
            later,
            Ok::<UploadResponse, ApiError>(probe),
        ),
    ensures
        probe.status == response.status,
        probe.upload_offset@ == response.upload_offset@,
        probe.upload_complete@ == response.upload_complete@,
{
    let file = before.tunnels[pending.tunnel_id].files[pending.file_id];
    let outcome: AppendOutcome = file.upload.outcome(pending.range, pending.body);
    let reached = after.tunnels[pending.tunnel_id].files[pending.file_id];
    assert(reached.upload == file.upload.committed(pending.range, pending.body));
    assert(tunnel::progress_of(reached.upload).offset == outcome.offset);
}

/// What a fetch returns is what the tunnel holds of the file, whole.
pub proof fn law_fetch_is_whole(
    before: StateModel,
    after: StateModel,
    tunnel_id: u128,
    file_id: u128,
    authorization: Option<Seq<u8>>,
    now: Timestamp,
    stamp: EventStamp,
    download: Download,
    event: TunnelEvent,
)
    requires
        before.is_consistent(),
        state::download_answer(
            before,
            after,
            tunnel_id,
            file_id,
            authorization,
            now,
            stamp,
            Ok::<(Download, TunnelEvent), ApiError>((download, event)),
        ),
    ensures
        download.content@ == before.tunnels[tunnel_id].files[file_id].upload.bytes,
        download.content@.len() == before.tunnels[tunnel_id].files[file_id].descriptor.size_bytes,
        before.tunnels[tunnel_id].desktop == state::bearer_digest(authorization),
{
    assert(before.tunnels[tunnel_id].is_consistent());
    assert(before.tunnels[tunnel_id].files[file_id].is_consistent());
}

} // verus!
