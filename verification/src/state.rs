//! All tunnels of a server, and every request that it answers.
//!
//! Each request comes in two forms. The one with the plain name draws its
//! identifiers, tokens and instants itself; the one whose name ends in `_at`
//! takes them as arguments and is exact about what it does with them.
use std::collections::HashMap;

use vstd::prelude::*;
use vstd::string::*;

use crate::capability;
use crate::declaration;
use crate::header;
use crate::limits;
use crate::problem::ApiError;
use crate::resumable::AppendOutcome;
use crate::text;
use crate::time;
use crate::time::Timestamp;
use crate::tunnel;
use crate::tunnel::{EventStamp, Tunnel, TunnelModel};
use crate::upload;
use crate::upload::{PendingModel, PendingUpload, UploadResponse};
use crate::{
    ClaimTunnelRequest, ClaimTunnelResponse, CreateTunnelRequest, CreateTunnelResponse,
    DeclareFileRequest, EventTicketResponse, FileDescriptor, TunnelEvent, TunnelSnapshot,
    TunnelStatus,
};

verus! {

/// The lifetime of an event ticket.
pub const EVENT_TICKET_SECONDS: u32 = 30;

/// The tunnels of a server, by identifier.
pub struct AppState {
    tunnels: HashMap<u128, Tunnel>,
    portal_origin: String,
}

/// What an [`AppState`] stands for.
#[verifier::ext_equal]
pub struct StateModel {
    pub tunnels: Map<u128, TunnelModel>,
    pub portal_origin: Seq<char>,
}

spec fn tunnel_models(tunnels: Map<u128, Tunnel>) -> Map<u128, TunnelModel> {
    Map::new(|id: u128| tunnels.contains_key(id), |id: u128| tunnels[id]@)
}

impl View for AppState {
    type V = StateModel;

    closed spec fn view(&self) -> StateModel {
        StateModel {
            tunnels: tunnel_models(self.tunnels@),
            portal_origin: self.portal_origin@,
        }
    }
}

impl StateModel {
    /// Every tunnel is consistent and stands under its own identifier.
    pub open spec fn is_consistent(self) -> bool {
        forall|id: u128| #[trigger]
            self.tunnels.contains_key(id) ==> self.tunnels[id].is_consistent()
                && self.tunnels[id].id == id
    }

    /// The numbers of the next `count` events of the tunnel fit in 64 bits.
    pub open spec fn has_event_room(self, tunnel_id: u128, count: int) -> bool {
        self.tunnels.contains_key(tunnel_id) ==> self.tunnels[tunnel_id].sequence + count
            <= u64::MAX
    }

    /// The same tunnels, but for one.
    pub open spec fn with_tunnel(self, tunnel_id: u128, tunnel: TunnelModel) -> Self {
        StateModel { tunnels: self.tunnels.insert(tunnel_id, tunnel), ..self }
    }

    /// The refusal of a request to a tunnel that does not exist.
    pub open spec fn missing(self, tunnel_id: u128) -> Option<ApiError> {
        tunnel::unless(self.tunnels.contains_key(tunnel_id), ApiError::NotFound)
    }

    /// Why a claim is refused, if it is.
    pub open spec fn claim_refusal(
        self,
        tunnel_id: u128,
        pairing_secret: Seq<char>,
        now: Timestamp,
    ) -> Option<ApiError> {
        tunnel::first_of(
            self.missing(tunnel_id),
            self.tunnels[tunnel_id].claim_refusal(now, capability::token_digest(pairing_secret)),
        )
    }

    /// Why the state of a tunnel is not shown, if it is not.
    pub open spec fn snapshot_refusal(
        self,
        tunnel_id: u128,
        authorization: Option<Seq<u8>>,
        now: Timestamp,
    ) -> Option<ApiError> {
        tunnel::first_of(
            no_bearer(authorization),
            tunnel::first_of(
                self.missing(tunnel_id),
                self.tunnels[tunnel_id].snapshot_refusal(now, bearer_digest(authorization)),
            ),
        )
    }

    /// Why a cancellation is refused, if it is.
    pub open spec fn cancel_refusal(
        self,
        tunnel_id: u128,
        authorization: Option<Seq<u8>>,
        now: Timestamp,
    ) -> Option<ApiError> {
        tunnel::first_of(
            no_bearer(authorization),
            tunnel::first_of(
                self.missing(tunnel_id),
                self.tunnels[tunnel_id].cancel_refusal(now, bearer_digest(authorization)),
            ),
        )
    }

    /// Why a declaration is refused, if it is.
    pub open spec fn declare_refusal(
        self,
        tunnel_id: u128,
        authorization: Option<Seq<u8>>,
        request: DeclareFileRequest,
        now: Timestamp,
    ) -> Option<ApiError> {
        tunnel::first_of(
            no_bearer(authorization),
            tunnel::first_of(
                tunnel::unless(
                    declaration::is_file_name(request.name@),
                    ApiError::Invalid(crate::problem::InvalidRequest::FileName),
                ),
                tunnel::first_of(
                    self.missing(tunnel_id),
                    self.tunnels[tunnel_id].declare_refusal(
                        now,
                        bearer_digest(authorization),
                        request,
                    ),
                ),
            ),
        )
    }

    /// Why an upload, or a probe of one, is refused on its head, if it is.
    pub open spec fn upload_refusal(
        self,
        tunnel_id: u128,
        file_id: u128,
        authorization: Option<Seq<u8>>,
        now: Timestamp,
    ) -> Option<ApiError> {
        tunnel::first_of(
            no_bearer(authorization),
            tunnel::first_of(
                self.missing(tunnel_id),
                self.tunnels[tunnel_id].upload_refusal(
                    now,
                    bearer_digest(authorization),
                    file_id,
                ),
            ),
        )
    }

    /// Why a finished upload request is refused, if it is.
    pub open spec fn commit_refusal(self, pending: PendingModel, now: Timestamp) -> Option<
        ApiError,
    > {
        tunnel::first_of(
            pending.length_refusal(),
            tunnel::first_of(
                self.missing(pending.tunnel_id),
                self.tunnels[pending.tunnel_id].commit_refusal(
                    now,
                    pending.supplied,
                    pending.file_id,
                    pending.range,
                    pending.body,
                ),
            ),
        )
    }

    /// Why a file is not handed over, if it is not.
    pub open spec fn download_refusal(
        self,
        tunnel_id: u128,
        file_id: u128,
        authorization: Option<Seq<u8>>,
        now: Timestamp,
    ) -> Option<ApiError> {
        tunnel::first_of(
            no_bearer(authorization),
            tunnel::first_of(
                self.missing(tunnel_id),
                self.tunnels[tunnel_id].download_refusal(
                    now,
                    bearer_digest(authorization),
                    file_id,
                ),
            ),
        )
    }

    /// Why no event ticket is minted, if none is.
    pub open spec fn ticket_refusal(
        self,
        tunnel_id: u128,
        authorization: Option<Seq<u8>>,
        now: Timestamp,
    ) -> Option<ApiError> {
        tunnel::first_of(
            no_bearer(authorization),
            tunnel::first_of(
                self.missing(tunnel_id),
                self.tunnels[tunnel_id].ticket_refusal(now, bearer_digest(authorization)),
            ),
        )
    }

    /// Why an event ticket is not looked at, or not found, if so.
    pub open spec fn redeem_refusal(
        self,
        tunnel_id: u128,
        ticket: Seq<char>,
        now: Timestamp,
    ) -> Option<ApiError> {
        tunnel::first_of(
            self.missing(tunnel_id),
            self.tunnels[tunnel_id].redeem_refusal(now, capability::token_digest(ticket)),
        )
    }
}

/// The refusal of a request without a bearer token.
pub open spec fn no_bearer(authorization: Option<Seq<u8>>) -> Option<ApiError> {
    tunnel::unless(capability::bearer_token(authorization) is Some, ApiError::Unauthorized)
}

/// The digest of the bearer token that a request presents.
pub open spec fn bearer_digest(authorization: Option<Seq<u8>>) -> Seq<u8> {
    capability::token_digest(capability::bearer_token(authorization)->0)
}

/// The link that pairs a phone: the secret stands in the fragment, which no
/// client sends to a server.
pub open spec fn pairing_link(
    portal_origin: Seq<char>,
    tunnel_id: u128,
    pairing_secret: Seq<char>,
) -> Seq<char> {
    text::trim_end_matches(portal_origin, '/') + "/t/"@ + capability::hyphenated_text(tunnel_id)
        + "#c="@ + pairing_secret
}

/// A complete file on its way to the desktop.
#[derive(Debug, Clone, PartialEq, Eq)]
pub struct Download {
    pub content: Vec<u8>,
    /// The value of the `Content-Type` header.
    pub content_type: String,
}

/// The media type under which a file travels: the declared one, where a header
/// can carry it.
pub open spec fn content_type_of(media_type: Seq<char>) -> Seq<char> {
    if header::is_header_value(media_type) {
        media_type
    } else {
        "application/octet-stream"@
    }
}

/// How a request for a new tunnel is answered.
pub open spec fn create_answer(
    before: StateModel,
    after: StateModel,
    request: CreateTunnelRequest,
    tunnel_id: u128,
    pairing_secret: Seq<char>,
    desktop_capability: Seq<char>,
    now: Timestamp,
    result: Result<CreateTunnelResponse, ApiError>,
) -> bool {
    let expires_at = now.plus(request.expires_in_seconds as int);
    match limits::create_refusal(request) {
        Some(error) => result matches Err(refusal) && refusal == error && after == before,
        None => {
            &&& after == before.with_tunnel(
                tunnel_id,
                tunnel::fresh_tunnel(
                    tunnel_id,
                    capability::token_digest(pairing_secret),
                    capability::token_digest(desktop_capability),
                    expires_at,
                    request.max_files,
                    request.max_file_bytes,
                    declaration::texts(request.accept@),
                ),
            )
            &&& result matches Ok(response)
            &&& response.api_version@ == "v1"@
            &&& response.tunnel_id == tunnel_id
            &&& response.status is Waiting
            &&& response.pairing_uri@ == pairing_link(
                before.portal_origin,
                tunnel_id,
                pairing_secret,
            )
            &&& response.desktop_capability@ == desktop_capability
            &&& response.expires_at == expires_at
        },
    }
}

/// How a phone that presents a pairing secret is answered.
pub open spec fn claim_answer(
    before: StateModel,
    after: StateModel,
    tunnel_id: u128,
    pairing_secret: Seq<char>,
    now: Timestamp,
    phone_capability: Seq<char>,
    stamp: EventStamp,
    result: Result<(ClaimTunnelResponse, TunnelEvent), ApiError>,
) -> bool {
    match before.claim_refusal(tunnel_id, pairing_secret, now) {
        Some(error) => result matches Err(refusal) && refusal == error && after == before,
        None => {
            let claimed = before.tunnels[tunnel_id].claimed(
                capability::token_digest(phone_capability),
            );
            &&& after == before.with_tunnel(tunnel_id, claimed)
            &&& result matches Ok((response, event))
            &&& response.phone_capability@ == phone_capability
            &&& response.expires_at == claimed.expires_at
            &&& event == tunnel::event_of(
                claimed.id,
                claimed.sequence,
                stamp,
                "tunnel.connected",
                None,
                None,
            )
        },
    }
}

/// How a request for the state of a tunnel is answered.
pub open spec fn snapshot_answer(
    state: StateModel,
    tunnel_id: u128,
    authorization: Option<Seq<u8>>,
    now: Timestamp,
    result: Result<TunnelSnapshot, ApiError>,
) -> bool {
    match state.snapshot_refusal(tunnel_id, authorization, now) {
        Some(error) => result matches Err(refusal) && refusal == error,
        None => {
            &&& result matches Ok(snapshot)
            &&& snapshot.tunnel_id == tunnel_id
            &&& snapshot.status == state.tunnels[tunnel_id].status
            &&& snapshot.expires_at == state.tunnels[tunnel_id].expires_at
            &&& tunnel::lists_files(snapshot.files@, state.tunnels[tunnel_id].files)
        },
    }
}

/// How a request to cancel a tunnel is answered.
pub open spec fn cancel_answer(
    before: StateModel,
    after: StateModel,
    tunnel_id: u128,
    authorization: Option<Seq<u8>>,
    now: Timestamp,
    stamp: EventStamp,
    result: Result<TunnelEvent, ApiError>,
) -> bool {
    match before.cancel_refusal(tunnel_id, authorization, now) {
        Some(error) => result matches Err(refusal) && refusal == error && after == before,
        None => {
            let cancelled = before.tunnels[tunnel_id].cancelled();
            &&& after == before.with_tunnel(tunnel_id, cancelled)
            &&& result matches Ok(event)
            &&& event == tunnel::event_of(
                cancelled.id,
                cancelled.sequence,
                stamp,
                "tunnel.cancelled",
                None,
                None,
            )
        },
    }
}

/// How the declaration of a file is answered.
pub open spec fn declare_answer(
    before: StateModel,
    after: StateModel,
    tunnel_id: u128,
    authorization: Option<Seq<u8>>,
    request: DeclareFileRequest,
    now: Timestamp,
    file_id: u128,
    created_at: Timestamp,
    stamp: EventStamp,
    result: Result<(FileDescriptor, TunnelEvent), ApiError>,
) -> bool {
    match before.declare_refusal(tunnel_id, authorization, request, now) {
        Some(error) => result matches Err(refusal) && refusal == error && after == before,
        None => {
            let descriptor = tunnel::new_descriptor(request, file_id, created_at);
            let declared = before.tunnels[tunnel_id].declared(descriptor);
            &&& after == before.with_tunnel(tunnel_id, declared)
            &&& result matches Ok((answer, event))
            &&& answer == descriptor
            &&& event == tunnel::event_of(
                declared.id,
                declared.sequence,
                stamp,
                "file.declared",
                Some(file_id),
                Some(0),
            )
        },
    }
}

/// How the head of an upload request is answered.
pub open spec fn begin_answer(
    state: StateModel,
    tunnel_id: u128,
    file_id: u128,
    authorization: Option<Seq<u8>>,
    content_range: Option<Seq<u8>>,
    now: Timestamp,
    result: Result<PendingUpload, ApiError>,
) -> bool {
    match state.upload_refusal(tunnel_id, file_id, authorization, now) {
        Some(error) => result matches Err(refusal) && refusal == error,
        None => {
            let size_bytes = state.tunnels[tunnel_id].files[file_id].descriptor.size_bytes;
            match upload::range_asked(content_range, size_bytes) {
                Err(error) => result matches Err(refusal) && refusal == error,
                Ok(range) => if range.end_exclusive - range.start > usize::MAX {
                    result matches Err(refusal) && refusal == ApiError::TooLarge
                } else {
                    &&& result matches Ok(pending)
                    &&& pending@ == (PendingModel {
                        tunnel_id,
                        file_id,
                        supplied: bearer_digest(authorization),
                        range,
                        body: Seq::empty(),
                    })
                },
            }
        },
    }
}

/// How an upload request is answered once its body is over.
pub open spec fn commit_answer(
    before: StateModel,
    after: StateModel,
    pending: PendingModel,
    now: Timestamp,
    progress: EventStamp,
    available: EventStamp,
    result: Result<(UploadResponse, Vec<TunnelEvent>), ApiError>,
) -> bool {
    match before.commit_refusal(pending, now) {
        Some(error) => result matches Err(refusal) && refusal == error && after == before,
        None => {
            let tunnel = before.tunnels[pending.tunnel_id];
            &&& after == before.with_tunnel(
                pending.tunnel_id,
                tunnel.committed(pending.file_id, pending.range, pending.body),
            )
            &&& result matches Ok((response, events))
            &&& upload::reports(
                response,
                tunnel.files[pending.file_id].upload.outcome(pending.range, pending.body),
            )
            &&& events@ == tunnel.commit_events(
                pending.file_id,
                pending.range,
                pending.body,
                progress,
                available,
            )
        },
    }
}

/// How a probe of an upload is answered.
pub open spec fn status_answer(
    state: StateModel,
    tunnel_id: u128,
    file_id: u128,
    authorization: Option<Seq<u8>>,
    now: Timestamp,
    result: Result<UploadResponse, ApiError>,
) -> bool {
    match state.upload_refusal(tunnel_id, file_id, authorization, now) {
        Some(error) => result matches Err(refusal) && refusal == error,
        None => {
            &&& result matches Ok(response)
            &&& upload::reports(
                response,
                tunnel::progress_of(state.tunnels[tunnel_id].files[file_id].upload),
            )
        },
    }
}

/// How a request for a file is answered.
pub open spec fn download_answer(
    before: StateModel,
    after: StateModel,
    tunnel_id: u128,
    file_id: u128,
    authorization: Option<Seq<u8>>,
    now: Timestamp,
    stamp: EventStamp,
    result: Result<(Download, TunnelEvent), ApiError>,
) -> bool {
    match before.download_refusal(tunnel_id, file_id, authorization, now) {
        Some(error) => result matches Err(refusal) && refusal == error && after == before,
        None => {
            let file = before.tunnels[tunnel_id].files[file_id];
            let fetched = before.tunnels[tunnel_id].downloaded(file_id);
            &&& after == before.with_tunnel(tunnel_id, fetched)
            &&& result matches Ok((download, event))
            &&& download.content@ == file.upload.bytes
            &&& download.content_type@ == content_type_of(file.descriptor.media_type@)
            &&& event == tunnel::event_of(
                fetched.id,
                fetched.sequence,
                stamp,
                "file.downloaded",
                Some(file_id),
                Some(file.upload.bytes.len() as u64),
            )
        },
    }
}

/// How a request for an event ticket is answered.
pub open spec fn ticket_answer(
    before: StateModel,
    after: StateModel,
    tunnel_id: u128,
    authorization: Option<Seq<u8>>,
    now: Timestamp,
    ticket: Seq<char>,
    minted_at: Timestamp,
    result: Result<EventTicketResponse, ApiError>,
) -> bool {
    match before.ticket_refusal(tunnel_id, authorization, now) {
        Some(error) => result matches Err(refusal) && refusal == error && after == before,
        None => {
            let expires_at = minted_at.plus(EVENT_TICKET_SECONDS as int);
            &&& after == before.with_tunnel(
                tunnel_id,
                before.tunnels[tunnel_id].ticketed(capability::token_digest(ticket), expires_at),
            )
            &&& result matches Ok(response)
            &&& response.ticket@ == ticket
            &&& response.expires_at == expires_at
        },
    }
}

/// How a subscriber that presents an event ticket is answered. A ticket that is
/// found is used up, even if it turns out to have expired.
pub open spec fn redeem_answer(
    before: StateModel,
    after: StateModel,
    tunnel_id: u128,
    ticket: Seq<char>,
    now: Timestamp,
    redeemed_at: Timestamp,
    result: Result<(), ApiError>,
) -> bool {
    match before.redeem_refusal(tunnel_id, ticket, now) {
        Some(error) => result matches Err(refusal) && refusal == error && after == before,
        None => {
            let digest = capability::token_digest(ticket);
            &&& after == before.with_tunnel(
                tunnel_id,
                before.tunnels[tunnel_id].redeemed(digest),
            )
            &&& if before.tunnels[tunnel_id].tickets[digest].at_or_before(redeemed_at) {
                result matches Err(refusal) && refusal == ApiError::Unauthorized
            } else {
                result is Ok
            }
        },
    }
}

/// The instant is a reading of the wall clock: a call of `time::now` gave it.
pub closed spec fn is_reading(instant: Timestamp) -> bool {
    call_ensures(time::now, (), instant)
}

/// The identifier was drawn: a call of `capability::new_id` gave it.
pub closed spec fn is_drawn_id(id: u128) -> bool {
    call_ensures(capability::new_id, (), id)
}

/// The identifier was drawn for a tunnel.
pub closed spec fn is_tunnel_id(id: u128) -> bool {
    call_ensures(draw_tunnel_id, (), id)
}

/// The identifier was drawn for a file.
pub closed spec fn is_file_id(id: u128) -> bool {
    call_ensures(draw_file_id, (), id)
}

/// The identifier was drawn for an event.
pub closed spec fn is_event_id(id: u128) -> bool {
    call_ensures(draw_event_id, (), id)
}

/// The token was drawn as the secret of a new tunnel.
pub closed spec fn is_pairing_secret(token: Seq<char>) -> bool {
    exists|value: String|
        #[trigger] call_ensures(capability::draw_pairing_secret, (), value) && value@ == token
}

/// The token was drawn as the capability of a desktop.
pub closed spec fn is_desktop_capability(token: Seq<char>) -> bool {
    exists|value: String|
        #[trigger] call_ensures(capability::draw_desktop_capability, (), value) && value@ == token
}

/// The token was drawn as the capability of a phone.
pub closed spec fn is_phone_capability(token: Seq<char>) -> bool {
    exists|value: String|
        #[trigger] call_ensures(capability::draw_phone_capability, (), value) && value@ == token
}

/// The token was drawn as an event ticket.
pub closed spec fn is_event_ticket(token: Seq<char>) -> bool {
    exists|value: String|
        #[trigger] call_ensures(capability::draw_event_ticket, (), value) && value@ == token
}

/// The stamp was made for the news that a file has become available.
pub closed spec fn is_availability_stamp(stamp: EventStamp) -> bool {
    call_ensures(availability_stamp, (), stamp)
}

/// The stamp was made for the news of the progress of a file.
pub closed spec fn is_progress_stamp(stamp: EventStamp) -> bool {
    call_ensures(progress_stamp, (), stamp)
}

/// Draws the identifier of a tunnel.
fn draw_tunnel_id() -> (id: u128)
    ensures
        capability::is_random_id(id),
        is_drawn_id(id),
{
    capability::new_id()
}

/// Draws the identifier of a file.
fn draw_file_id() -> (id: u128)
    ensures
        capability::is_random_id(id),
        is_drawn_id(id),
{
    capability::new_id()
}

/// Draws the identifier of an event.
fn draw_event_id() -> (id: u128)
    ensures
        capability::is_random_id(id),
        is_drawn_id(id),
{
    capability::new_id()
}

/// An event stamp that the clock and chance gave.
pub open spec fn is_drawn(stamp: EventStamp) -> bool {
    &&& capability::is_random_id(stamp.event_id)
    &&& is_drawn_id(stamp.event_id)
    &&& is_event_id(stamp.event_id)
    &&& stamp.occurred_at.is_valid()
    &&& is_reading(stamp.occurred_at)
}

/// A fresh event stamp.
fn new_stamp() -> (stamp: EventStamp)
    ensures
        is_drawn(stamp),
{
    EventStamp { event_id: draw_event_id(), occurred_at: time::now() }
}

/// A fresh stamp for the news of the progress of a file.
fn progress_stamp() -> (stamp: EventStamp)
    ensures
        is_drawn(stamp),
{
    new_stamp()
}

/// A fresh stamp for the news that a file has become available.
fn availability_stamp() -> (stamp: EventStamp)
    ensures
        is_drawn(stamp),
{
    new_stamp()
}

proof fn lemma_tunnel_put(tunnels: Map<u128, Tunnel>, id: u128, tunnel: Tunnel)
    ensures
        tunnel_models(tunnels.remove(id).insert(id, tunnel)) == tunnel_models(tunnels).insert(
            id,
            tunnel@,
        ),
        tunnels.contains_key(id) && tunnels[id]@ == tunnel@ ==> tunnel_models(
            tunnels.remove(id).insert(id, tunnel),
        ) == tunnel_models(tunnels),
{
    assert(tunnel_models(tunnels.remove(id).insert(id, tunnel)) =~= tunnel_models(tunnels).insert(
        id,
        tunnel@,
    ));
    if tunnels.contains_key(id) && tunnels[id]@ == tunnel@ {
        assert(tunnel_models(tunnels).insert(id, tunnel@) =~= tunnel_models(tunnels));
    }
}

impl AppState {
    /// The representation behind the model is sound.
    pub closed spec fn is_well_formed(&self) -> bool {
        forall|id: u128| #[trigger]
            self.tunnels@.contains_key(id) ==> self.tunnels@[id].is_well_formed()
    }

    /// What holds of every state that requests have led to.
    pub open spec fn is_valid(&self) -> bool {
        self.is_well_formed() && self@.is_consistent()
    }

    /// A server without tunnels.
    pub fn new(portal_origin: &str) -> (state: AppState)
        ensures
            state.is_valid(),
            state@ == (StateModel { tunnels: Map::empty(), portal_origin: portal_origin@ }),
    {
        let state: AppState = AppState {
            tunnels: HashMap::new(),
            portal_origin: portal_origin.to_owned(),
        };
        assert(tunnel_models(state.tunnels@) =~= Map::<u128, TunnelModel>::empty());
        state
    }

    /// Whether the tunnel can number `count` more events.
    pub fn has_event_room(&self, tunnel_id: u128, count: u64) -> (answer: bool)
        ensures
            answer == self@.has_event_room(tunnel_id, count as int),
    {
        match self.tunnels.get(&tunnel_id) {
            Some(tunnel) => {
                assert(self@.tunnels.contains_key(tunnel_id));
                tunnel.sequence() <= u64::MAX - count
            },
            None => true,
        }
    }

    /// Creates a tunnel from given random values.
    pub fn create_tunnel_at(
        &mut self,
        request: CreateTunnelRequest,
        tunnel_id: u128,
        pairing_secret: &str,
        desktop_capability: String,
        now: Timestamp,
    ) -> (result: Result<CreateTunnelResponse, ApiError>)
        requires
            old(self).is_valid(),
            now.seconds + request.expires_in_seconds <= i64::MAX,
        ensures
            final(self).is_valid(),
            create_answer(
                old(self)@,
                final(self)@,
                request,
                tunnel_id,
                pairing_secret@,
                desktop_capability@,
                now,
                result,
            ),
    {
        limits::validate_create(&request)?;
        let expires_at: Timestamp = now.plus_seconds(request.expires_in_seconds);
        let tunnel: Tunnel = Tunnel::new(
            tunnel_id,
            capability::token_hash(pairing_secret),
            capability::token_hash(desktop_capability.as_str()),
            expires_at,
            request.max_files,
            request.max_file_bytes,
            request.accept,
        );
        let ghost tunnels = self.tunnels@;
        proof {
            lemma_tunnel_put(tunnels, tunnel_id, tunnel);
            assert(tunnels.remove(tunnel_id).insert(tunnel_id, tunnel) =~= tunnels.insert(
                tunnel_id,
                tunnel,
            ));
        }
        self.tunnels.insert(tunnel_id, tunnel);
        let pairing_uri: String = self.pairing_uri(tunnel_id, pairing_secret);
        Ok(
            CreateTunnelResponse {
                api_version: "v1",
                tunnel_id,
                status: TunnelStatus::Waiting,
                pairing_uri,
                desktop_capability,
                expires_at,
            },
        )
    }

    /// The link that pairs a phone with a tunnel.
    fn pairing_uri(&self, tunnel_id: u128, pairing_secret: &str) -> (uri: String)
        ensures
            uri@ == pairing_link(self@.portal_origin, tunnel_id, pairing_secret@),
    {
        let origin: Vec<char> = text::chars_of(self.portal_origin.as_str());
        let mut end: usize = origin.len();
        assert(origin@.take(end as int) =~= origin@);
        while end > 0 && origin[end - 1] == '/'
            invariant
                end <= origin@.len(),
                origin@ == self.portal_origin@,
                text::trim_end_matches(origin@, '/') == text::trim_end_matches(
                    origin@.take(end as int),
                    '/',
                ),
            decreases end,
        {
            assert(origin@.take(end as int).drop_last() =~= origin@.take(end - 1));
            end = end - 1;
        }
        assert(end > 0 ==> origin@.take(end as int).last() == origin@[end - 1]);
        assert(origin@.take(end as int) =~= origin@.subrange(0, end as int));
        let base: &str = self.portal_origin.as_str().substring_char(0, end);
        let mut uri: String = base.to_owned();
        let name: String = capability::id_text(tunnel_id);
        uri.append("/t/");
        uri.append(name.as_str());
        uri.append("#c=");
        uri.append(pairing_secret);
        uri
    }

    /// Creates a tunnel.
    pub fn create_tunnel(&mut self, request: CreateTunnelRequest) -> (result: Result<
        CreateTunnelResponse,
        ApiError,
    >)
        requires
            old(self).is_valid(),
        ensures
            final(self).is_valid(),
            exists|
                tunnel_id: u128,
                pairing_secret: Seq<char>,
                desktop_capability: Seq<char>,
                now: Timestamp,
            |
                capability::is_random_id(tunnel_id) && is_drawn_id(tunnel_id)
                    && is_tunnel_id(tunnel_id) && is_pairing_secret(pairing_secret)
                    && is_desktop_capability(desktop_capability)
                    && capability::is_token(pairing_secret) && capability::is_minted(
                    pairing_secret,
                ) && capability::is_token(desktop_capability) && capability::is_minted(
                    desktop_capability,
                ) && now.is_valid() && is_reading(now)
                    && #[trigger] create_answer(
                    old(self)@,
                    final(self)@,
                    request,
                    tunnel_id,
                    pairing_secret,
                    desktop_capability,
                    now,
                    result,
                ),
            result matches Ok(response) ==> exists|now: Timestamp| #[trigger]
                is_reading(now) && response.expires_at.seconds == now.seconds
                    + request.expires_in_seconds && response.expires_at.nanos == now.nanos,
    {
        let tunnel_id: u128 = draw_tunnel_id();
        let pairing_secret: String = capability::draw_pairing_secret();
        let desktop_capability: String = capability::draw_desktop_capability();
        let now: Timestamp = time::now();
        let ghost desktop = desktop_capability@;
        let result: Result<CreateTunnelResponse, ApiError> = self.create_tunnel_at(
            request,
            tunnel_id,
            pairing_secret.as_str(),
            desktop_capability,
            now,
        );
        assert(is_reading(now));
        assert(create_answer(
            old(self)@,
            self@,
            request,
            tunnel_id,
            pairing_secret@,
            desktop,
            now,
            result,
        ));
        result
    }

    /// Pairs a phone, with a given capability.
    pub fn claim_tunnel_at(
        &mut self,
        tunnel_id: u128,
        request: &ClaimTunnelRequest,
        now: Timestamp,
        phone_capability: String,
        stamp: EventStamp,
    ) -> (result: Result<(ClaimTunnelResponse, TunnelEvent), ApiError>)
        requires
            old(self).is_valid(),
            old(self)@.has_event_room(tunnel_id, 1),
        ensures
            final(self).is_valid(),
            claim_answer(
                old(self)@,
                final(self)@,
                tunnel_id,
                request.pairing_secret@,
                now,
                phone_capability@,
                stamp,
                result,
            ),
    {
        let supplied: [u8; 32] = capability::token_hash(request.pairing_secret.as_str());
        let phone_hash: [u8; 32] = capability::token_hash(phone_capability.as_str());
        let ghost tunnels = self.tunnels@;
        let mut tunnel: Tunnel = match self.tunnels.remove(&tunnel_id) {
            Some(tunnel) => tunnel,
            None => {
                assert(self.tunnels@ =~= tunnels);
                return Err(ApiError::NotFound);
            },
        };
        assert(old(self)@.tunnels.contains_key(tunnel_id));
        let claimed: Result<TunnelEvent, ApiError> = tunnel.claim(
            &now,
            &supplied,
            phone_hash,
            stamp,
        );
        let expires_at: Timestamp = tunnel.expires_at();
        proof {
            lemma_tunnel_put(tunnels, tunnel_id, tunnel);
        }
        self.tunnels.insert(tunnel_id, tunnel);
        match claimed {
            Ok(event) => Ok((ClaimTunnelResponse { phone_capability, expires_at }, event)),
            Err(error) => Err(error),
        }
    }

    /// Pairs a phone: exchanges the pairing secret for the phone capability.
    pub fn claim_tunnel(&mut self, tunnel_id: u128, request: &ClaimTunnelRequest) -> (result:
        Result<(ClaimTunnelResponse, TunnelEvent), ApiError>)
        requires
            old(self).is_valid(),
            old(self)@.has_event_room(tunnel_id, 1),
        ensures
            final(self).is_valid(),
            exists|now: Timestamp, phone_capability: Seq<char>, stamp: EventStamp|
                now.is_valid() && is_reading(now) && capability::is_token(phone_capability)
                    && capability::is_minted(phone_capability) && is_phone_capability(phone_capability) && is_drawn(stamp)
                    && #[trigger] claim_answer(
                    old(self)@,
                    final(self)@,
                    tunnel_id,
                    request.pairing_secret@,
                    now,
                    phone_capability,
                    stamp,
                    result,
                ),
    {
        let now: Timestamp = time::now();
        let phone_capability: String = capability::draw_phone_capability();
        let stamp: EventStamp = new_stamp();
        let ghost phone = phone_capability@;
        let result: Result<(ClaimTunnelResponse, TunnelEvent), ApiError> = self.claim_tunnel_at(
            tunnel_id,
            request,
            now,
            phone_capability,
            stamp,
        );
        assert(claim_answer(
            old(self)@,
            self@,
            tunnel_id,
            request.pairing_secret@,
            now,
            phone,
            stamp,
            result,
        ));
        result
    }

    /// What a capability holder sees of a tunnel at a given instant.
    pub fn get_tunnel_at(
        &self,
        tunnel_id: u128,
        authorization: Option<&[u8]>,
        now: Timestamp,
    ) -> (result: Result<TunnelSnapshot, ApiError>)
        requires
            self.is_valid(),
        ensures
            snapshot_answer(
                self@,
                tunnel_id,
                capability::bytes_of(authorization),
                now,
                result,
            ),
    {
        let supplied: [u8; 32] = match capability::bearer_hash(authorization) {
            Ok(supplied) => supplied,
            Err(error) => {
                return Err(error);
            },
        };
        match self.tunnels.get(&tunnel_id) {
            Some(tunnel) => {
                assert(self@.tunnels.contains_key(tunnel_id));
                match tunnel.snapshot(&now, &supplied) {
                    Ok(files) => Ok(
                        TunnelSnapshot {
                            tunnel_id,
                            status: tunnel.status(),
                            expires_at: tunnel.expires_at(),
                            files,
                        },
                    ),
                    Err(error) => Err(error),
                }
            },
            None => Err(ApiError::NotFound),
        }
    }

    /// What a capability holder sees of a tunnel.
    pub fn get_tunnel(&self, tunnel_id: u128, authorization: Option<&[u8]>) -> (result: Result<
        TunnelSnapshot,
        ApiError,
    >)
        requires
            self.is_valid(),
        ensures
            exists|now: Timestamp|
                now.is_valid() && is_reading(now) && #[trigger] snapshot_answer(
                    self@,
                    tunnel_id,
                    capability::bytes_of(authorization),
                    now,
                    result,
                ),
    {
        let now: Timestamp = time::now();
        self.get_tunnel_at(tunnel_id, authorization, now)
    }

    /// Cancels a tunnel at a given instant.
    pub fn cancel_tunnel_at(
        &mut self,
        tunnel_id: u128,
        authorization: Option<&[u8]>,
        now: Timestamp,
        stamp: EventStamp,
    ) -> (result: Result<TunnelEvent, ApiError>)
        requires
            old(self).is_valid(),
            old(self)@.has_event_room(tunnel_id, 1),
        ensures
            final(self).is_valid(),
            cancel_answer(
                old(self)@,
                final(self)@,
                tunnel_id,
                capability::bytes_of(authorization),
                now,
                stamp,
                result,
            ),
    {
        let supplied: [u8; 32] = match capability::bearer_hash(authorization) {
            Ok(supplied) => supplied,
            Err(error) => {
                return Err(error);
            },
        };
        let ghost tunnels = self.tunnels@;
        let mut tunnel: Tunnel = match self.tunnels.remove(&tunnel_id) {
            Some(tunnel) => tunnel,
            None => {
                assert(self.tunnels@ =~= tunnels);
                return Err(ApiError::NotFound);
            },
        };
        assert(old(self)@.tunnels.contains_key(tunnel_id));
        let result: Result<TunnelEvent, ApiError> = tunnel.cancel(&now, &supplied, stamp);
        proof {
            lemma_tunnel_put(tunnels, tunnel_id, tunnel);
        }
        self.tunnels.insert(tunnel_id, tunnel);
        result
    }

    /// Cancels a tunnel: its files and tickets are gone.
    pub fn cancel_tunnel(&mut self, tunnel_id: u128, authorization: Option<&[u8]>) -> (result:
        Result<TunnelEvent, ApiError>)
        requires
            old(self).is_valid(),
            old(self)@.has_event_room(tunnel_id, 1),
        ensures
            final(self).is_valid(),
            exists|now: Timestamp, stamp: EventStamp|
                now.is_valid() && is_reading(now) && is_drawn(stamp) && #[trigger] cancel_answer(
                    old(self)@,
                    final(self)@,
                    tunnel_id,
                    capability::bytes_of(authorization),
                    now,
                    stamp,
                    result,
                ),
    {
        let now: Timestamp = time::now();
        let stamp: EventStamp = new_stamp();
        self.cancel_tunnel_at(tunnel_id, authorization, now, stamp)
    }

    /// Declares a file, under a given identifier.
    pub fn declare_file_at(
        &mut self,
        tunnel_id: u128,
        authorization: Option<&[u8]>,
        request: DeclareFileRequest,
        now: Timestamp,
        file_id: u128,
        created_at: Timestamp,
        stamp: EventStamp,
    ) -> (result: Result<(FileDescriptor, TunnelEvent), ApiError>)
        requires
            old(self).is_valid(),
            old(self)@.has_event_room(tunnel_id, 1),
        ensures
            final(self).is_valid(),
            declare_answer(
                old(self)@,
                final(self)@,
                tunnel_id,
                capability::bytes_of(authorization),
                request,
                now,
                file_id,
                created_at,
                stamp,
                result,
            ),
    {
        let supplied: [u8; 32] = match capability::bearer_hash(authorization) {
            Ok(supplied) => supplied,
            Err(error) => {
                return Err(error);
            },
        };
        if let Err(error) = limits::validate_filename(request.name.as_str()) {
            return Err(error);
        }
        let ghost tunnels = self.tunnels@;
        let mut tunnel: Tunnel = match self.tunnels.remove(&tunnel_id) {
            Some(tunnel) => tunnel,
            None => {
                assert(self.tunnels@ =~= tunnels);
                return Err(ApiError::NotFound);
            },
        };
        assert(old(self)@.tunnels.contains_key(tunnel_id));
        let result: Result<(FileDescriptor, TunnelEvent), ApiError> = tunnel.declare(
            &now,
            &supplied,
            request,
            file_id,
            created_at,
            stamp,
        );
        proof {
            lemma_tunnel_put(tunnels, tunnel_id, tunnel);
        }
        self.tunnels.insert(tunnel_id, tunnel);
        result
    }

    /// Declares a file that the phone is about to upload.
    pub fn declare_file(
        &mut self,
        tunnel_id: u128,
        authorization: Option<&[u8]>,
        request: DeclareFileRequest,
    ) -> (result: Result<(FileDescriptor, TunnelEvent), ApiError>)
        requires
            old(self).is_valid(),
            old(self)@.has_event_room(tunnel_id, 1),
        ensures
            final(self).is_valid(),
            exists|now: Timestamp, file_id: u128, created_at: Timestamp, stamp: EventStamp|
                now.is_valid() && is_reading(now) && capability::is_random_id(file_id)
                    && is_drawn_id(file_id) && is_file_id(file_id) && created_at.is_valid() && is_reading(created_at)
                    && is_drawn(stamp) && #[trigger] declare_answer(
                    old(self)@,
                    final(self)@,
                    tunnel_id,
                    capability::bytes_of(authorization),
                    request,
                    now,
                    file_id,
                    created_at,
                    stamp,
                    result,
                ),
    {
        let now: Timestamp = time::now();
        let file_id: u128 = draw_file_id();
        let created_at: Timestamp = time::now();
        let stamp: EventStamp = new_stamp();
        self.declare_file_at(tunnel_id, authorization, request, now, file_id, created_at, stamp)
    }

    /// Admits an upload request on its head alone, at a given instant.
    pub fn begin_upload_at(
        &self,
        tunnel_id: u128,
        file_id: u128,
        authorization: Option<&[u8]>,
        content_range: Option<&[u8]>,
        now: Timestamp,
    ) -> (result: Result<PendingUpload, ApiError>)
        requires
            self.is_valid(),
        ensures
            begin_answer(
                self@,
                tunnel_id,
                file_id,
                capability::bytes_of(authorization),
                capability::bytes_of(content_range),
                now,
                result,
            ),
            result matches Ok(pending) ==> pending@.is_valid(),
    {
        let supplied: [u8; 32] = match capability::bearer_hash(authorization) {
            Ok(supplied) => supplied,
            Err(error) => {
                return Err(error);
            },
        };
        let size_bytes: u64 = match self.tunnels.get(&tunnel_id) {
            Some(tunnel) => {
                assert(self@.tunnels.contains_key(tunnel_id));
                match tunnel.upload_size(&now, &supplied, file_id) {
                    Ok(size_bytes) => size_bytes,
                    Err(error) => {
                        return Err(error);
                    },
                }
            },
            None => {
                return Err(ApiError::NotFound);
            },
        };
        match upload::requested_range(content_range, size_bytes) {
            Ok(range) => PendingUpload::new(tunnel_id, file_id, supplied, range),
            Err(error) => Err(error),
        }
    }

    /// Admits an upload request on its head alone; its body follows.
    pub fn begin_upload(
        &self,
        tunnel_id: u128,
        file_id: u128,
        authorization: Option<&[u8]>,
        content_range: Option<&[u8]>,
    ) -> (result: Result<PendingUpload, ApiError>)
        requires
            self.is_valid(),
        ensures
            exists|now: Timestamp|
                now.is_valid() && is_reading(now) && #[trigger] begin_answer(
                    self@,
                    tunnel_id,
                    file_id,
                    capability::bytes_of(authorization),
                    capability::bytes_of(content_range),
                    now,
                    result,
                ),
            result matches Ok(pending) ==> pending@.is_valid(),
    {
        let now: Timestamp = time::now();
        self.begin_upload_at(tunnel_id, file_id, authorization, content_range, now)
    }

    /// Commits the body of an upload request at a given instant.
    pub fn commit_upload_at(
        &mut self,
        pending: &PendingUpload,
        now: Timestamp,
        progress: EventStamp,
        available: EventStamp,
    ) -> (result: Result<(UploadResponse, Vec<TunnelEvent>), ApiError>)
        requires
            old(self).is_valid(),
            pending@.is_valid(),
            old(self)@.has_event_room(pending@.tunnel_id, 2),
        ensures
            final(self).is_valid(),
            commit_answer(old(self)@, final(self)@, pending@, now, progress, available, result),
    {
        if let Err(error) = pending.check_length() {
            return Err(error);
        }
        let tunnel_id: u128 = pending.tunnel_id();
        let ghost tunnels = self.tunnels@;
        let mut tunnel: Tunnel = match self.tunnels.remove(&tunnel_id) {
            Some(tunnel) => tunnel,
            None => {
                assert(self.tunnels@ =~= tunnels);
                return Err(ApiError::NotFound);
            },
        };
        assert(old(self)@.tunnels.contains_key(tunnel_id));
        let committed: Result<(AppendOutcome, Vec<TunnelEvent>), ApiError> = tunnel.commit(
            &now,
            pending.supplied(),
            pending.file_id(),
            pending.range(),
            pending.body(),
            progress,
            available,
        );
        proof {
            lemma_tunnel_put(tunnels, tunnel_id, tunnel);
        }
        self.tunnels.insert(tunnel_id, tunnel);
        match committed {
            Ok((outcome, events)) => Ok((upload::upload_response(outcome), events)),
            Err(error) => Err(error),
        }
    }

    /// Commits the body of an upload request.
    pub fn commit_upload(&mut self, pending: &PendingUpload) -> (result: Result<
        (UploadResponse, Vec<TunnelEvent>),
        ApiError,
    >)
        requires
            old(self).is_valid(),
            pending@.is_valid(),
            old(self)@.has_event_room(pending@.tunnel_id, 2),
        ensures
            final(self).is_valid(),
            exists|now: Timestamp, progress: EventStamp, available: EventStamp|
                now.is_valid() && is_reading(now) && is_drawn(progress) && is_progress_stamp(progress)
                    && is_drawn(available) && is_availability_stamp(available)
                    && #[trigger] commit_answer(
                    old(self)@,
                    final(self)@,
                    pending@,
                    now,
                    progress,
                    available,
                    result,
                ),
    {
        let now: Timestamp = time::now();
        let progress: EventStamp = progress_stamp();
        let available: EventStamp = availability_stamp();
        self.commit_upload_at(pending, now, progress, available)
    }

    /// How far an upload has come, at a given instant.
    pub fn upload_status_at(
        &self,
        tunnel_id: u128,
        file_id: u128,
        authorization: Option<&[u8]>,
        now: Timestamp,
    ) -> (result: Result<UploadResponse, ApiError>)
        requires
            self.is_valid(),
        ensures
            status_answer(
                self@,
                tunnel_id,
                file_id,
                capability::bytes_of(authorization),
                now,
                result,
            ),
    {
        let supplied: [u8; 32] = match capability::bearer_hash(authorization) {
            Ok(supplied) => supplied,
            Err(error) => {
                return Err(error);
            },
        };
        match self.tunnels.get(&tunnel_id) {
            Some(tunnel) => {
                assert(self@.tunnels.contains_key(tunnel_id));
                match tunnel.upload_progress(&now, &supplied, file_id) {
                    Ok(outcome) => Ok(upload::upload_response(outcome)),
                    Err(error) => Err(error),
                }
            },
            None => Err(ApiError::NotFound),
        }
    }

    /// How far an upload has come.
    pub fn upload_status(&self, tunnel_id: u128, file_id: u128, authorization: Option<&[u8]>) -> (
    result: Result<UploadResponse, ApiError>)
        requires
            self.is_valid(),
        ensures
            exists|now: Timestamp|
                now.is_valid() && is_reading(now) && #[trigger] status_answer(
                    self@,
                    tunnel_id,
                    file_id,
                    capability::bytes_of(authorization),
                    now,
                    result,
                ),
    {
        let now: Timestamp = time::now();
        self.upload_status_at(tunnel_id, file_id, authorization, now)
    }

    /// Hands a file to the desktop at a given instant.
    pub fn download_file_at(
        &mut self,
        tunnel_id: u128,
        file_id: u128,
        authorization: Option<&[u8]>,
        now: Timestamp,
        stamp: EventStamp,
    ) -> (result: Result<(Download, TunnelEvent), ApiError>)
        requires
            old(self).is_valid(),
            old(self)@.has_event_room(tunnel_id, 1),
        ensures
            final(self).is_valid(),
            download_answer(
                old(self)@,
                final(self)@,
                tunnel_id,
                file_id,
                capability::bytes_of(authorization),
                now,
                stamp,
                result,
            ),
    {
        let supplied: [u8; 32] = match capability::bearer_hash(authorization) {
            Ok(supplied) => supplied,
            Err(error) => {
                return Err(error);
            },
        };
        let ghost tunnels = self.tunnels@;
        let mut tunnel: Tunnel = match self.tunnels.remove(&tunnel_id) {
            Some(tunnel) => tunnel,
            None => {
                assert(self.tunnels@ =~= tunnels);
                return Err(ApiError::NotFound);
            },
        };
        assert(old(self)@.tunnels.contains_key(tunnel_id));
        let fetched: Result<(Vec<u8>, String, TunnelEvent), ApiError> = tunnel.download(
            &now,
            &supplied,
            file_id,
            stamp,
        );
        proof {
            lemma_tunnel_put(tunnels, tunnel_id, tunnel);
        }
        self.tunnels.insert(tunnel_id, tunnel);
        match fetched {
            Ok((content, media_type, event)) => {
                let content_type: String = if header::is_valid_header_value(media_type.as_str()) {
                    media_type
                } else {
                    "application/octet-stream".to_owned()
                };
                Ok((Download { content, content_type }, event))
            },
            Err(error) => Err(error),
        }
    }

    /// Hands a file to the desktop. The last one completes the tunnel.
    pub fn download_file(
        &mut self,
        tunnel_id: u128,
        file_id: u128,
        authorization: Option<&[u8]>,
    ) -> (result: Result<(Download, TunnelEvent), ApiError>)
        requires
            old(self).is_valid(),
            old(self)@.has_event_room(tunnel_id, 1),
        ensures
            final(self).is_valid(),
            exists|now: Timestamp, stamp: EventStamp|
                now.is_valid() && is_reading(now) && is_drawn(stamp) && #[trigger] download_answer(
                    old(self)@,
                    final(self)@,
                    tunnel_id,
                    file_id,
                    capability::bytes_of(authorization),
                    now,
                    stamp,
                    result,
                ),
    {
        let now: Timestamp = time::now();
        let stamp: EventStamp = new_stamp();
        self.download_file_at(tunnel_id, file_id, authorization, now, stamp)
    }

    /// Mints a given event ticket.
    pub fn create_event_ticket_at(
        &mut self,
        tunnel_id: u128,
        authorization: Option<&[u8]>,
        now: Timestamp,
        ticket: String,
        minted_at: Timestamp,
    ) -> (result: Result<EventTicketResponse, ApiError>)
        requires
            old(self).is_valid(),
            minted_at.seconds + EVENT_TICKET_SECONDS <= i64::MAX,
        ensures
            final(self).is_valid(),
            ticket_answer(
                old(self)@,
                final(self)@,
                tunnel_id,
                capability::bytes_of(authorization),
                now,
                ticket@,
                minted_at,
                result,
            ),
    {
        let supplied: [u8; 32] = match capability::bearer_hash(authorization) {
            Ok(supplied) => supplied,
            Err(error) => {
                return Err(error);
            },
        };
        let ghost tunnels = self.tunnels@;
        let mut tunnel: Tunnel = match self.tunnels.remove(&tunnel_id) {
            Some(tunnel) => tunnel,
            None => {
                assert(self.tunnels@ =~= tunnels);
                return Err(ApiError::NotFound);
            },
        };
        assert(old(self)@.tunnels.contains_key(tunnel_id));
        let expires_at: Timestamp = minted_at.plus_seconds(EVENT_TICKET_SECONDS);
        let minted: Result<(), ApiError> = tunnel.mint_ticket(
            &now,
            &supplied,
            capability::token_hash(ticket.as_str()),
            expires_at,
        );
        proof {
            lemma_tunnel_put(tunnels, tunnel_id, tunnel);
        }
        self.tunnels.insert(tunnel_id, tunnel);
        match minted {
            Ok(()) => Ok(EventTicketResponse { ticket, expires_at }),
            Err(error) => Err(error),
        }
    }

    /// Mints an event ticket for either party.
    pub fn create_event_ticket(&mut self, tunnel_id: u128, authorization: Option<&[u8]>) -> (
    result: Result<EventTicketResponse, ApiError>)
        requires
            old(self).is_valid(),
        ensures
            final(self).is_valid(),
            exists|now: Timestamp, ticket: Seq<char>, minted_at: Timestamp|
                now.is_valid() && is_reading(now) && capability::is_token(ticket)
                    && capability::is_minted(ticket) && is_event_ticket(ticket) && minted_at.is_valid() && is_reading(
                    minted_at,
                )
                    && #[trigger] ticket_answer(
                    old(self)@,
                    final(self)@,
                    tunnel_id,
                    capability::bytes_of(authorization),
                    now,
                    ticket,
                    minted_at,
                    result,
                ),
            result matches Ok(response) ==> exists|minted_at: Timestamp| #[trigger]
                is_reading(minted_at) && response.expires_at.seconds == minted_at.seconds + 30
                    && response.expires_at.nanos == minted_at.nanos,
    {
        let now: Timestamp = time::now();
        let ticket: String = capability::draw_event_ticket();
        let minted_at: Timestamp = time::now();
        let ghost minted = ticket@;
        let result: Result<EventTicketResponse, ApiError> = self.create_event_ticket_at(
            tunnel_id,
            authorization,
            now,
            ticket,
            minted_at,
        );
        assert(is_reading(minted_at));
        assert(ticket_answer(
            old(self)@,
            self@,
            tunnel_id,
            capability::bytes_of(authorization),
            now,
            minted,
            minted_at,
            result,
        ));
        result
    }

    /// Admits a subscriber at given instants.
    pub fn connect_events_at(
        &mut self,
        tunnel_id: u128,
        ticket: &str,
        now: Timestamp,
        redeemed_at: Timestamp,
    ) -> (result: Result<(), ApiError>)
        requires
            old(self).is_valid(),
        ensures
            final(self).is_valid(),
            redeem_answer(
                old(self)@,
                final(self)@,
                tunnel_id,
                ticket@,
                now,
                redeemed_at,
                result,
            ),
    {
        let ghost tunnels = self.tunnels@;
        let mut tunnel: Tunnel = match self.tunnels.remove(&tunnel_id) {
            Some(tunnel) => tunnel,
            None => {
                assert(self.tunnels@ =~= tunnels);
                return Err(ApiError::NotFound);
            },
        };
        assert(old(self)@.tunnels.contains_key(tunnel_id));
        let supplied: [u8; 32] = capability::token_hash(ticket);
        let result: Result<(), ApiError> = tunnel.redeem_ticket(&now, &supplied, &redeemed_at);
        proof {
            lemma_tunnel_put(tunnels, tunnel_id, tunnel);
        }
        self.tunnels.insert(tunnel_id, tunnel);
        result
    }

    /// Admits a subscriber on an event ticket, once.
    pub fn connect_events(&mut self, tunnel_id: u128, ticket: &str) -> (result: Result<
        (),
        ApiError,
    >)
        requires
            old(self).is_valid(),
        ensures
            final(self).is_valid(),
            exists|now: Timestamp, redeemed_at: Timestamp|
                now.is_valid() && is_reading(now) && redeemed_at.is_valid() && is_reading(
                    redeemed_at,
                ) && #[trigger] redeem_answer(
                    old(self)@,
                    final(self)@,
                    tunnel_id,
                    ticket@,
                    now,
                    redeemed_at,
                    result,
                ),
    {
        let now: Timestamp = time::now();
        let redeemed_at: Timestamp = time::now();
        self.connect_events_at(tunnel_id, ticket, now, redeemed_at)
    }
}

} // verus!
