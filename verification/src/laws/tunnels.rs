//! Laws of one tunnel under any sequence of requests.
use vstd::prelude::*;

use crate::laws::ranges;
use crate::problem::ApiError;
use crate::protocol::Operation;
use crate::resumable::{ContentRange, Upload};
use crate::time::Timestamp;
use crate::tunnel;
use crate::tunnel::{EventStamp, FileModel, TunnelModel};
use crate::{DeclareFileRequest, FileDescriptor, TunnelEvent, TunnelStatus};

verus! {

/// A request to one tunnel, with everything that its answer depends on.
/// Capabilities and tickets appear by their digests.
pub ghost enum Step {
    Claim { now: Timestamp, supplied: Seq<u8>, phone: Seq<u8> },
    Cancel { now: Timestamp, supplied: Seq<u8> },
    Declare {
        now: Timestamp,
        supplied: Seq<u8>,
        request: DeclareFileRequest,
        file_id: u128,
        created_at: Timestamp,
    },
    Commit {
        now: Timestamp,
        supplied: Seq<u8>,
        file_id: u128,
        range: ContentRange,
        chunk: Seq<u8>,
    },
    Download { now: Timestamp, supplied: Seq<u8>, file_id: u128 },
    Mint { now: Timestamp, supplied: Seq<u8>, ticket: Seq<u8>, expires_at: Timestamp },
    Redeem { now: Timestamp, ticket: Seq<u8> },
}

impl Step {
    /// The instant at which the request is answered.
    pub open spec fn now(self) -> Timestamp {
        match self {
            Step::Claim { now, .. } => now,
            Step::Cancel { now, .. } => now,
            Step::Declare { now, .. } => now,
            Step::Commit { now, .. } => now,
            Step::Download { now, .. } => now,
            Step::Mint { now, .. } => now,
            Step::Redeem { now, .. } => now,
        }
    }

    /// The digest of the secret that the request presents.
    pub open spec fn presented(self) -> Seq<u8> {
        match self {
            Step::Claim { supplied, .. } => supplied,
            Step::Cancel { supplied, .. } => supplied,
            Step::Declare { supplied, .. } => supplied,
            Step::Commit { supplied, .. } => supplied,
            Step::Download { supplied, .. } => supplied,
            Step::Mint { supplied, .. } => supplied,
            Step::Redeem { ticket, .. } => ticket,
        }
    }

    /// A chunk comes with a range that was read from a header.
    pub open spec fn is_valid(self) -> bool {
        self matches Step::Commit { range, .. } ==> range.is_valid()
    }

    /// Why `tunnel` refuses the request, if it does.
    pub open spec fn refusal(self, tunnel: TunnelModel) -> Option<ApiError> {
        match self {
            Step::Claim { now, supplied, .. } => tunnel.claim_refusal(now, supplied),
            Step::Cancel { now, supplied } => tunnel.cancel_refusal(now, supplied),
            Step::Declare { now, supplied, request, .. } => tunnel.declare_refusal(
                now,
                supplied,
                request,
            ),
            Step::Commit { now, supplied, file_id, range, chunk } => tunnel.commit_refusal(
                now,
                supplied,
                file_id,
                range,
                chunk,
            ),
            Step::Download { now, supplied, file_id } => tunnel.download_refusal(
                now,
                supplied,
                file_id,
            ),
            Step::Mint { now, supplied, .. } => tunnel.ticket_refusal(now, supplied),
            Step::Redeem { now, ticket } => tunnel.redeem_refusal(now, ticket),
        }
    }

    /// `tunnel` after it granted the request.
    pub open spec fn granted(self, tunnel: TunnelModel) -> TunnelModel {
        match self {
            Step::Claim { phone, .. } => tunnel.claimed(phone),
            Step::Cancel { .. } => tunnel.cancelled(),
            Step::Declare { request, file_id, created_at, .. } => tunnel.declared(
                tunnel::new_descriptor(request, file_id, created_at),
            ),
            Step::Commit { file_id, range, chunk, .. } => tunnel.committed(file_id, range, chunk),
            Step::Download { file_id, .. } => tunnel.downloaded(file_id),
            Step::Mint { ticket, expires_at, .. } => tunnel.ticketed(ticket, expires_at),
            Step::Redeem { ticket, .. } => tunnel.redeemed(ticket),
        }
    }

    /// `tunnel` after the request was answered: a refusal changes nothing.
    pub open spec fn answered(self, tunnel: TunnelModel) -> TunnelModel {
        if self.refusal(tunnel) is None {
            self.granted(tunnel)
        } else {
            tunnel
        }
    }
}

/// `tunnel` after each request of a sequence was answered.
pub open spec fn served(tunnel: TunnelModel, steps: Seq<Step>) -> TunnelModel
    decreases steps.len(),
{
    if steps.len() == 0 {
        tunnel
    } else {
        steps.last().answered(served(tunnel, steps.drop_last()))
    }
}

/// Every chunk in the sequence comes with a range that was read from a header.
pub open spec fn all_valid(steps: Seq<Step>) -> bool {
    forall|i: int| 0 <= i < steps.len() ==> (#[trigger] steps[i]).is_valid()
}

proof fn lemma_files_keep_consistent(tunnel: TunnelModel, file_id: u128, file: FileModel)
    requires
        tunnel.is_consistent(),
        file.is_consistent(),
        file.descriptor.file_id == file_id,
        file.descriptor.size_bytes <= tunnel.max_file_bytes,
        tunnel.files.contains_key(file_id) || tunnel.files.dom().len() < tunnel.max_files,
    ensures
        tunnel.files.insert(file_id, file).dom().finite(),
        tunnel.files.insert(file_id, file).dom().len() <= tunnel.max_files,
        forall|id: u128| #[trigger]
            tunnel.files.insert(file_id, file).contains_key(id) ==> {
                let stored = tunnel.files.insert(file_id, file)[id];
                &&& stored.is_consistent()
                &&& stored.descriptor.file_id == id
                &&& stored.descriptor.size_bytes <= tunnel.max_file_bytes
            },
{
    let files = tunnel.files.insert(file_id, file);
    assert(files.dom() =~= tunnel.files.dom().insert(file_id));
}

/// Every answer keeps a tunnel consistent.
pub proof fn law_answers_keep_consistency(tunnel: TunnelModel, step: Step)
    requires
        tunnel.is_consistent(),
        step.is_valid(),
    ensures
        step.answered(tunnel).is_consistent(),
{
    if step.refusal(tunnel) is None {
        let after = step.granted(tunnel);
        match step {
            Step::Declare { request, file_id, created_at, .. } => {
                let descriptor = tunnel::new_descriptor(request, file_id, created_at);
                lemma_files_keep_consistent(tunnel, file_id, after.files[file_id]);
            },
            Step::Commit { file_id, range, chunk, .. } => {
                let file = tunnel.files[file_id];
                if !file.upload.is_replay(range) {
                    let updated = file.committed(range, chunk);
                    assert(updated.upload.bytes.len() == range.end_exclusive);
                    assert(updated.is_consistent());
                    lemma_files_keep_consistent(tunnel, file_id, updated);
                }
            },
            Step::Download { file_id, .. } => {
                lemma_files_keep_consistent(
                    tunnel,
                    file_id,
                    tunnel.files[file_id].downloaded(),
                );
                assert(after.files.contains_key(file_id));
            },
            _ => {},
        }
    }
}

/// No sequence of requests makes a tunnel inconsistent. In particular no file
/// ever holds more than its declared size, no file is larger than the tunnel
/// allows, there are never more files than it allows, and it is complete only
/// once every file in it has been fetched.
pub proof fn law_tunnels_stay_consistent(tunnel: TunnelModel, steps: Seq<Step>)
    requires
        tunnel.is_consistent(),
        all_valid(steps),
    ensures
        served(tunnel, steps).is_consistent(),
    decreases steps.len(),
{
    if steps.len() > 0 {
        assert(steps.last().is_valid());
        assert(all_valid(steps.drop_last())) by {
            assert forall|i: int| 0 <= i < steps.drop_last().len() implies (
            #[trigger] steps.drop_last()[i]).is_valid() by {
                assert(steps.drop_last()[i] == steps[i]);
            }
        }
        law_tunnels_stay_consistent(tunnel, steps.drop_last());
        law_answers_keep_consistency(served(tunnel, steps.drop_last()), steps.last());
    }
}

/// The pairing secret is good for one claim: afterwards every claim is refused,
/// whatever happens in between and whatever secret it presents.
pub proof fn law_claim_happens_once(
    tunnel: TunnelModel,
    claim: Step,
    steps: Seq<Step>,
    again: Step,
)
    requires
        claim is Claim,
        claim.refusal(tunnel) is None,
        again is Claim,
    ensures
        again.refusal(served(claim.granted(tunnel), steps)) is Some,
        served(claim.granted(tunnel), steps).pairing is None,
    decreases steps.len(),
{
    if steps.len() > 0 {
        law_claim_happens_once(tunnel, claim, steps.drop_last(), again);
    }
}

/// The secret that pairs a tunnel stays the one it was made with until it is
/// exchanged.
proof fn lemma_pairing_stays(tunnel: TunnelModel, steps: Seq<Step>)
    ensures
        served(tunnel, steps).pairing is None || served(tunnel, steps).pairing == tunnel.pairing,
    decreases steps.len(),
{
    if steps.len() > 0 {
        lemma_pairing_stays(tunnel, steps.drop_last());
    }
}

/// Whatever has been asked of a new tunnel, as long as it is neither cancelled
/// nor expired: a claim succeeds exactly where the tunnel still waits and the
/// secret is the one it was made with. A wrong secret is unauthorized, and every
/// claim after the first is a conflict. A granted claim stores the phone's
/// digest, drops the secret's, connects the tunnel and numbers one event; a
/// refused one changes nothing.
pub proof fn law_claim_needs_the_secret(
    id: u128,
    pairing: Seq<u8>,
    desktop: Seq<u8>,
    expires_at: Timestamp,
    max_files: u16,
    max_file_bytes: u64,
    accept: Seq<Seq<char>>,
    steps: Seq<Step>,
    now: Timestamp,
    supplied: Seq<u8>,
    phone: Seq<u8>,
)
    requires
        all_valid(steps),
        !expires_at.at_or_before(now),
        !(served(
            tunnel::fresh_tunnel(
                id,
                pairing,
                desktop,
                expires_at,
                max_files,
                max_file_bytes,
                accept,
            ),
            steps,
        ).status is Cancelled),
    ensures
        ({
            let fresh = tunnel::fresh_tunnel(
                id,
                pairing,
                desktop,
                expires_at,
                max_files,
                max_file_bytes,
                accept,
            );
            let before = served(fresh, steps);
            let claim = Step::Claim { now, supplied, phone };
            let after = claim.answered(before);
            &&& claim.refusal(before) == if !(before.status is Waiting) {
                Some(ApiError::Conflict)
            } else if supplied != pairing {
                Some(ApiError::Unauthorized)
            } else {
                None
            }
            &&& claim.refusal(before) is Some ==> after == before
            &&& claim.refusal(before) is None ==> after == (TunnelModel {
                phone: Some(phone),
                pairing: None,
                status: TunnelStatus::Connected,
                sequence: (before.sequence + 1) as u64,
                ..before
            })
            &&& after.expires_at == expires_at
        }),
{
    let fresh = tunnel::fresh_tunnel(
        id,
        pairing,
        desktop,
        expires_at,
        max_files,
        max_file_bytes,
        accept,
    );
    assert(fresh.is_consistent());
    law_tunnels_stay_consistent(fresh, steps);
    law_terms_never_change(fresh, steps);
    lemma_pairing_stays(fresh, steps);
    lemma_never_marked_expired(fresh, steps);
}

/// No request marks a tunnel as expired: the clock alone decides that.
proof fn lemma_never_marked_expired(tunnel: TunnelModel, steps: Seq<Step>)
    requires
        !(tunnel.status is Expired),
    ensures
        !(served(tunnel, steps).status is Expired),
    decreases steps.len(),
{
    if steps.len() > 0 {
        lemma_never_marked_expired(tunnel, steps.drop_last());
    }
}

/// A request that presents none of the secrets of a tunnel is refused: its
/// identifier is an address and grants nothing.
pub proof fn law_an_address_grants_nothing(tunnel: TunnelModel, step: Step)
    requires
        tunnel.pairing != Some(step.presented()),
        tunnel.phone != Some(step.presented()),
        tunnel.desktop != step.presented(),
        !tunnel.tickets.contains_key(step.presented()),
    ensures
        step.refusal(tunnel) is Some,
        step.answered(tunnel) == tunnel,
{
}

/// The phone's capability neither cancels the tunnel nor fetches a file.
pub proof fn law_phone_stays_in_scope(tunnel: TunnelModel, step: Step)
    requires
        step is Cancel || step is Download,
        tunnel.phone == Some(step.presented()),
        tunnel.desktop != step.presented(),
    ensures
        step.refusal(tunnel) is Some,
{
}

/// The desktop's capability neither declares a file nor uploads one.
pub proof fn law_desktop_stays_in_scope(tunnel: TunnelModel, step: Step)
    requires
        step is Declare || step is Commit,
        tunnel.desktop == step.presented(),
        tunnel.phone != Some(step.presented()),
    ensures
        step.refusal(tunnel) is Some,
{
}

/// Once a tunnel has expired, every request is refused as such and changes
/// nothing; neither capabilities nor tickets outlive it.
pub proof fn law_expired_tunnels_are_closed(tunnel: TunnelModel, step: Step)
    requires
        tunnel.expires_at.at_or_before(step.now()),
    ensures
        step.refusal(tunnel) == Some(ApiError::Expired),
        step.answered(tunnel) == tunnel,
{
}

/// A cancelled tunnel stays as it is, without files and tickets, and every
/// request to it is refused.
pub proof fn law_cancellation_is_final(
    tunnel: TunnelModel,
    cancel: Step,
    steps: Seq<Step>,
    again: Step,
)
    requires
        cancel is Cancel,
        cancel.refusal(tunnel) is None,
    ensures
        served(cancel.granted(tunnel), steps) == cancel.granted(tunnel),
        cancel.granted(tunnel).files == Map::<u128, FileModel>::empty(),
        cancel.granted(tunnel).tickets == Map::<Seq<u8>, Timestamp>::empty(),
        again.refusal(cancel.granted(tunnel)) is Some,
    decreases steps.len(),
{
    if steps.len() > 0 {
        law_cancellation_is_final(tunnel, cancel, steps.drop_last(), steps.last());
    }
}

/// A complete tunnel stays as it is: nothing is declared, uploaded, fetched or
/// cancelled any more, and no ticket is minted or redeemed.
pub proof fn law_completion_is_final(tunnel: TunnelModel, steps: Seq<Step>, again: Step)
    requires
        tunnel.status is Complete,
    ensures
        served(tunnel, steps) == tunnel,
        again.refusal(tunnel) is Some,
    decreases steps.len(),
{
    if steps.len() > 0 {
        law_completion_is_final(tunnel, steps.drop_last(), steps.last());
    }
}

/// A fetch completes the tunnel exactly where it was the last one owed, and
/// completion takes every ticket out of circulation.
pub proof fn law_last_fetch_completes(tunnel: TunnelModel, file_id: u128, step: Step)
    requires
        tunnel.is_consistent(),
        step matches Step::Download { file_id: id, .. } && id == file_id,
        step.refusal(tunnel) is None,
    ensures
        step.granted(tunnel).status is Complete <==> forall|id: u128|
            #![trigger tunnel.files.contains_key(id)]
            tunnel.files.contains_key(id) && id != file_id
                ==> tunnel.files[id].descriptor.status is Downloaded,
        step.granted(tunnel).status is Complete ==> step.granted(tunnel).tickets == Map::<
            Seq<u8>,
            Timestamp,
        >::empty(),
{
    let after = step.granted(tunnel);
    let files = tunnel.files.insert(file_id, tunnel.files[file_id].downloaded());
    assert(after.files == files);
    assert(files.dom() =~= tunnel.files.dom());
    assert(after.status is Complete <==> after.all_downloaded());
    if after.all_downloaded() {
        assert forall|id: u128| #[trigger]
            tunnel.files.contains_key(id) && id
                != file_id implies tunnel.files[id].descriptor.status is Downloaded by {
            assert(after.files.contains_key(id));
        }
    }
    if forall|id: u128| #[trigger]
        tunnel.files.contains_key(id) && id != file_id
            ==> tunnel.files[id].descriptor.status is Downloaded {
        assert forall|id: u128| #[trigger]
            after.files.contains_key(id) implies after.files[id].descriptor.status is Downloaded by {
            assert(tunnel.files.contains_key(id));
        }
    }
}

/// A ticket is good for one redemption: unless it is minted again, every
/// further redemption is refused, whatever happens in between.
pub proof fn law_ticket_is_redeemed_once(
    tunnel: TunnelModel,
    ticket: Seq<u8>,
    steps: Seq<Step>,
    again: Step,
)
    requires
        forall|i: int|
            0 <= i < steps.len() ==> ((#[trigger] steps[i]) matches Step::Mint {
                ticket: minted,
                ..
            } ==> minted != ticket),
        again matches Step::Redeem { ticket: presented, .. } && presented == ticket,
    ensures
        again.refusal(served(tunnel.redeemed(ticket), steps)) is Some,
        !served(tunnel.redeemed(ticket), steps).tickets.contains_key(ticket),
    decreases steps.len(),
{
    if steps.len() > 0 {
        let front = steps.drop_last();
        assert forall|i: int| 0 <= i < front.len() implies ((#[trigger] front[i]) matches Step::Mint {
            ticket: minted,
            ..
        } ==> minted != ticket) by {
            assert(front[i] == steps[i]);
        }
        law_ticket_is_redeemed_once(tunnel, ticket, front, again);
        assert(steps.last() == steps[steps.len() - 1]);
    }
}

/// The events that the answer to a request carries, in order. A request
/// publishes at most two.
pub open spec fn announced(
    tunnel: TunnelModel,
    step: Step,
    first: EventStamp,
    second: EventStamp,
) -> Seq<TunnelEvent> {
    let sequence = step.granted(tunnel).sequence;
    if step.refusal(tunnel) is Some {
        Seq::empty()
    } else {
        match step {
            Step::Claim { .. } => seq![
                tunnel::event_of(tunnel.id, sequence, first, "tunnel.connected", None, None),
            ],
            Step::Cancel { .. } => seq![
                tunnel::event_of(tunnel.id, sequence, first, "tunnel.cancelled", None, None),
            ],
            Step::Declare { file_id, .. } => seq![
                tunnel::event_of(
                    tunnel.id,
                    sequence,
                    first,
                    "file.declared",
                    Some(file_id),
                    Some(0),
                ),
            ],
            Step::Commit { file_id, range, chunk, .. } => tunnel.commit_events(
                file_id,
                range,
                chunk,
                first,
                second,
            ),
            Step::Download { file_id, .. } => seq![
                tunnel::event_of(
                    tunnel.id,
                    sequence,
                    first,
                    "file.downloaded",
                    Some(file_id),
                    Some(tunnel.files[file_id].upload.bytes.len() as u64),
                ),
            ],
            Step::Mint { .. } | Step::Redeem { .. } => Seq::empty(),
        }
    }
}

/// Every event that the answers to a sequence of requests carry, in order, given
/// the stamps that were drawn for each answer.
pub open spec fn event_log(
    tunnel: TunnelModel,
    steps: Seq<Step>,
    stamps: Seq<(EventStamp, EventStamp)>,
) -> Seq<TunnelEvent>
    decreases steps.len(),
{
    if steps.len() == 0 {
        Seq::empty()
    } else {
        let at = steps.len() - 1;
        event_log(tunnel, steps.drop_last(), stamps) + announced(
            served(tunnel, steps.drop_last()),
            steps.last(),
            stamps[at].0,
            stamps[at].1,
        )
    }
}

/// The events of one answer carry consecutive numbers that follow the last one,
/// and the number of the last event is the tunnel's.
pub proof fn law_answers_number_their_events(
    tunnel: TunnelModel,
    step: Step,
    first: EventStamp,
    second: EventStamp,
)
    requires
        tunnel.sequence + 2 <= u64::MAX,
    ensures
        ({
            let events = announced(tunnel, step, first, second);
            &&& events.len() <= 2
            &&& step.answered(tunnel).sequence == tunnel.sequence + events.len()
            &&& forall|i: int|
                0 <= i < events.len() ==> (#[trigger] events[i]).sequence == tunnel.sequence + i + 1
                    && events[i].tunnel_id == tunnel.id
        }),
{
    if let Step::Commit { file_id, range, chunk, .. } = step {
        let upload = tunnel.files[file_id].upload;
        if range.start == range.end_exclusive && step.refusal(tunnel) is None {
            assert(upload.bytes + chunk =~= upload.bytes);
        }
    }
}

/// Whatever is asked of a tunnel, its events carry strictly increasing numbers
/// without gaps, and the tunnel's number is that of its last event. The events
/// of a new tunnel are numbered 1, 2, 3 and so on.
pub proof fn law_events_are_numbered_without_gaps(
    tunnel: TunnelModel,
    steps: Seq<Step>,
    stamps: Seq<(EventStamp, EventStamp)>,
)
    requires
        tunnel.sequence + 2 * steps.len() <= u64::MAX,
    ensures
        ({
            let log = event_log(tunnel, steps, stamps);
            &&& log.len() <= 2 * steps.len()
            &&& served(tunnel, steps).sequence == tunnel.sequence + log.len()
            &&& forall|i: int|
                0 <= i < log.len() ==> (#[trigger] log[i]).sequence == tunnel.sequence + i + 1
                    && log[i].tunnel_id == tunnel.id
        }),
    decreases steps.len(),
{
    if steps.len() > 0 {
        let front = steps.drop_last();
        let at = steps.len() - 1;
        law_events_are_numbered_without_gaps(tunnel, front, stamps);
        law_terms_never_change(tunnel, front);
        law_answers_number_their_events(
            served(tunnel, front),
            steps.last(),
            stamps[at].0,
            stamps[at].1,
        );
        let before = event_log(tunnel, front, stamps);
        let log = event_log(tunnel, steps, stamps);
        assert forall|i: int| 0 <= i < log.len() implies (#[trigger] log[i]).sequence
            == tunnel.sequence + i + 1 && log[i].tunnel_id == tunnel.id by {
            if i < before.len() {
                assert(log[i] == before[i]);
            }
        }
    }
}

/// What identifies a tunnel and limits it never changes.
pub proof fn law_terms_never_change(tunnel: TunnelModel, steps: Seq<Step>)
    ensures
        served(tunnel, steps).id == tunnel.id,
        served(tunnel, steps).desktop == tunnel.desktop,
        served(tunnel, steps).expires_at == tunnel.expires_at,
        served(tunnel, steps).max_files == tunnel.max_files,
        served(tunnel, steps).max_file_bytes == tunnel.max_file_bytes,
        served(tunnel, steps).accept == tunnel.accept,
    decreases steps.len(),
{
    if steps.len() > 0 {
        law_terms_never_change(tunnel, steps.drop_last());
    }
}

/// The request neither cancels the tunnel nor declares a file under `file_id`.
pub open spec fn leaves_file(step: Step, file_id: u128) -> bool {
    &&& !(step is Cancel)
    &&& step matches Step::Declare { file_id: id, .. } ==> id != file_id
}

/// Committed bytes are never changed: as long as the tunnel is not cancelled, a
/// declared file stays, with the name, type and size it was declared with, and
/// what was committed of it stays in front of whatever is committed later. That
/// an upload of it was accepted is never forgotten.
pub proof fn law_committed_bytes_stay(tunnel: TunnelModel, file_id: u128, steps: Seq<Step>)
    requires
        tunnel.files.contains_key(file_id),
        forall|i: int| 0 <= i < steps.len() ==> leaves_file(#[trigger] steps[i], file_id),
    ensures
        served(tunnel, steps).files.contains_key(file_id),
        tunnel.files[file_id].upload.bytes.is_prefix_of(
            served(tunnel, steps).files[file_id].upload.bytes,
        ),
        served(tunnel, steps).files[file_id].descriptor.name
            == tunnel.files[file_id].descriptor.name,
        served(tunnel, steps).files[file_id].descriptor.media_type
            == tunnel.files[file_id].descriptor.media_type,
        served(tunnel, steps).files[file_id].descriptor.size_bytes
            == tunnel.files[file_id].descriptor.size_bytes,
        tunnel.files[file_id].uploaded ==> served(tunnel, steps).files[file_id].uploaded,
    decreases steps.len(),
{
    let first = tunnel.files[file_id].upload.bytes;
    if steps.len() == 0 {
        assert(first =~= first.subrange(0, first.len() as int));
    } else {
        let front = steps.drop_last();
        assert forall|i: int| 0 <= i < front.len() implies leaves_file(
            #[trigger] front[i],
            file_id,
        ) by {
            assert(front[i] == steps[i]);
        }
        law_committed_bytes_stay(tunnel, file_id, front);
        assert(leaves_file(steps[steps.len() - 1], file_id));
        let before = served(tunnel, front).files[file_id].upload.bytes;
        let after = served(tunnel, steps).files[file_id].upload.bytes;
        assert(before =~= after.subrange(0, before.len() as int));
        assert(first =~= after.subrange(0, first.len() as int)) by {
            assert(first =~= before.subrange(0, first.len() as int));
        }
    }
}

/// A file that has arrived whole stays as it is until the tunnel is cancelled.
pub proof fn law_complete_files_stay(tunnel: TunnelModel, file_id: u128, steps: Seq<Step>)
    requires
        tunnel.is_consistent(),
        all_valid(steps),
        tunnel.files.contains_key(file_id),
        tunnel.files[file_id].upload.is_complete(),
        forall|i: int| 0 <= i < steps.len() ==> leaves_file(#[trigger] steps[i], file_id),
    ensures
        served(tunnel, steps).files.contains_key(file_id),
        served(tunnel, steps).files[file_id].upload == tunnel.files[file_id].upload,
{
    law_committed_bytes_stay(tunnel, file_id, steps);
    law_tunnels_stay_consistent(tunnel, steps);
    let before = tunnel.files[file_id].upload;
    let after = served(tunnel, steps).files[file_id].upload;
    assert(before.bytes =~= after.bytes.subrange(0, before.bytes.len() as int));
    assert(before =~= after);
}

/// The requests that send a file chunk by chunk, each from the offset that the
/// server then expects, and each at an instant of its own.
pub open spec fn upload_steps(
    instants: Seq<Timestamp>,
    supplied: Seq<u8>,
    file_id: u128,
    upload: Upload,
    chunks: Seq<Seq<u8>>,
) -> Seq<Step> {
    Seq::new(
        chunks.len(),
        |i: int|
            Step::Commit {
                now: instants[i],
                supplied,
                file_id,
                range: ranges::next_range(ranges::sent(upload, chunks.take(i)), chunks[i]),
                chunk: chunks[i],
            },
    )
}

/// The phone may send the declared file, of which nothing has arrived, in these
/// chunks, one at each instant.
pub open spec fn may_send(
    tunnel: TunnelModel,
    instants: Seq<Timestamp>,
    supplied: Seq<u8>,
    file_id: u128,
    chunks: Seq<Seq<u8>>,
) -> bool {
    &&& tunnel.is_consistent()
    &&& tunnel.phone_gate(supplied, Operation::UploadFile) is None
    &&& tunnel.files.contains_key(file_id)
    &&& tunnel.files[file_id].upload.bytes == Seq::<u8>::empty()
    &&& ranges::joined(chunks).len() == tunnel.files[file_id].descriptor.size_bytes <= usize::MAX
    &&& instants.len() == chunks.len()
    &&& forall|i: int|
        0 <= i < instants.len() ==> !tunnel.expires_at.at_or_before(#[trigger] instants[i])
}

/// What the desktop fetches is what the phone sent: a file that is sent chunk
/// by chunk before the tunnel expires, however it is cut up, is accepted whole,
/// and until the tunnel expires the desktop may fetch exactly those bytes.
pub proof fn law_fetch_returns_what_was_sent(
    tunnel: TunnelModel,
    instants: Seq<Timestamp>,
    supplied: Seq<u8>,
    file_id: u128,
    chunks: Seq<Seq<u8>>,
    later: Timestamp,
)
    requires
        may_send(tunnel, instants, supplied, file_id, chunks),
        !tunnel.expires_at.at_or_before(later),
    ensures
        ({
            let steps = upload_steps(
                instants,
                supplied,
                file_id,
                tunnel.files[file_id].upload,
                chunks,
            );
            let after = served(tunnel, steps);
            &&& forall|i: int|
                0 <= i < steps.len() ==> steps[i].refusal(served(tunnel, #[trigger] steps.take(i)))
                    is None
            &&& after.files[file_id].upload.bytes == ranges::joined(chunks)
            &&& after.download_refusal(later, tunnel.desktop, file_id) is None
        }),
{
    let start = tunnel.files[file_id].upload;
    let steps = upload_steps(instants, supplied, file_id, start, chunks);
    assert(start =~= Upload { total: start.total, bytes: Seq::empty() });
    ranges::law_chunks_concatenate(start.total, chunks);
    assert forall|i: int| 0 <= i < steps.len() implies steps[i].refusal(
        served(tunnel, #[trigger] steps.take(i)),
    ) is None by {
        lemma_chunks_arrive(tunnel, instants, supplied, file_id, chunks, i);
        law_terms_never_change(tunnel, steps.take(i));
        let before = ranges::sent(start, chunks.take(i));
        assert(before.refusal(ranges::next_range(before, chunks[i]), chunks[i]) is None);
        assert(!tunnel.expires_at.at_or_before(instants[i]));
    }
    lemma_chunks_arrive(tunnel, instants, supplied, file_id, chunks, chunks.len() as int);
    assert(steps.take(chunks.len() as int) =~= steps);
    assert(chunks.take(chunks.len() as int) =~= chunks);
    law_terms_never_change(tunnel, steps);
}

/// After the first `count` chunks the file holds what was sent so far, and the
/// phone may still upload.
proof fn lemma_chunks_arrive(
    tunnel: TunnelModel,
    instants: Seq<Timestamp>,
    supplied: Seq<u8>,
    file_id: u128,
    chunks: Seq<Seq<u8>>,
    count: int,
)
    requires
        may_send(tunnel, instants, supplied, file_id, chunks),
        0 <= count <= chunks.len(),
    ensures
        ({
            let start = tunnel.files[file_id].upload;
            let steps = upload_steps(instants, supplied, file_id, start, chunks);
            let after = served(tunnel, steps.take(count));
            &&& after.files.contains_key(file_id)
            &&& after.files[file_id].upload == ranges::sent(start, chunks.take(count))
            &&& after.phone_gate(supplied, Operation::UploadFile) is None
        }),
    decreases count,
{
    let start = tunnel.files[file_id].upload;
    let steps = upload_steps(instants, supplied, file_id, start, chunks);
    if count == 0 {
        assert(steps.take(0).len() == 0);
        assert(chunks.take(0).len() == 0);
    } else {
        lemma_chunks_arrive(tunnel, instants, supplied, file_id, chunks, count - 1);
        assert(start =~= Upload { total: start.total, bytes: Seq::empty() });
        ranges::law_chunks_concatenate(start.total, chunks);
        let before = ranges::sent(start, chunks.take(count - 1));
        let chunk = chunks[count - 1];
        let range = ranges::next_range(before, chunk);
        assert(before.refusal(range, chunk) is None);
        assert(steps.take(count).drop_last() =~= steps.take(count - 1));
        assert(steps.take(count).last() == steps[count - 1]);
        assert(chunks.take(count).drop_last() =~= chunks.take(count - 1));
        assert(chunks.take(count).last() == chunk);
        let reached = served(tunnel, steps.take(count - 1));
        law_terms_never_change(tunnel, steps.take(count - 1));
        assert(!tunnel.expires_at.at_or_before(instants[count - 1]));
        assert(steps[count - 1].refusal(reached) is None);
        assert(served(tunnel, steps.take(count)) == reached.committed(file_id, range, chunk));
    }
}

/// An exact retry of an accepted chunk, at any later time at which the phone may
/// still upload the file and whatever has happened in between, is accepted,
/// publishes nothing and changes nothing. This holds of empty files too.
pub proof fn law_retry_changes_nothing(
    tunnel: TunnelModel,
    step: Step,
    steps: Seq<Step>,
    again: Step,
    first: EventStamp,
    second: EventStamp,
)
    requires
        tunnel.is_consistent(),
        step.is_valid(),
        all_valid(steps),
        step.refusal(tunnel) is None,
        step matches Step::Commit { file_id, range, chunk, .. } && again matches Step::Commit {
            now: later,
            supplied,
            file_id: same_file,
            range: same_range,
            chunk: same_chunk,
        } && same_file == file_id && same_range == range && same_chunk == chunk && served(
            step.granted(tunnel),
            steps,
        ).upload_refusal(later, supplied, file_id) is None && forall|i: int|
            0 <= i < steps.len() ==> leaves_file(#[trigger] steps[i], file_id),
    ensures
        ({
            let reached = served(step.granted(tunnel), steps);
            &&& again.refusal(reached) is None
            &&& again.granted(reached) == reached
            &&& announced(reached, again, first, second) == Seq::<TunnelEvent>::empty()
        }),
{
    if let Step::Commit { file_id, range, chunk, .. } = step {
        let granted = step.granted(tunnel);
        let reached = served(granted, steps);
        let before = tunnel.files[file_id];
        law_answers_keep_consistency(tunnel, step);
        law_tunnels_stay_consistent(granted, steps);
        if range.start == range.end_exclusive {
            assert(before.upload.bytes + chunk =~= before.upload.bytes);
        }
        assert(granted.files[file_id].upload =~= before.upload.committed(range, chunk));
        law_committed_bytes_stay(granted, file_id, steps);
        assert(before.is_consistent());
        assert(reached.files[file_id].is_consistent());
        ranges::law_exact_retry_is_idempotent(
            before.upload,
            range,
            chunk,
            reached.files[file_id].upload,
        );
        assert(reached.files[file_id].upload.bytes.len() >= granted.files[file_id].upload.bytes.len());
        assert(reached.files[file_id].is_retry(range));
    }
}

/// The progress that a descriptor reports is the number of bytes that have
/// arrived, and never exceeds the declared size.
pub proof fn law_progress_is_true(tunnel: TunnelModel, steps: Seq<Step>, file_id: u128)
    requires
        tunnel.is_consistent(),
        all_valid(steps),
        served(tunnel, steps).files.contains_key(file_id),
    ensures
        ({
            let file = served(tunnel, steps).files[file_id];
            &&& file.descriptor.bytes_transferred == file.upload.bytes.len()
            &&& file.descriptor.bytes_transferred <= file.descriptor.size_bytes
        }),
{
    law_tunnels_stay_consistent(tunnel, steps);
    assert(served(tunnel, steps).files[file_id].is_consistent());
}

/// Nothing arrives of a file that was not declared, and nothing is fetched
/// that has not arrived whole.
pub proof fn law_files_go_through_their_stages(tunnel: TunnelModel, step: Step)
    requires
        step.refusal(tunnel) is None,
    ensures
        step matches Step::Commit { file_id, .. } ==> tunnel.files.contains_key(file_id),
        step matches Step::Download { file_id, .. } ==> tunnel.files.contains_key(file_id)
            && tunnel.files[file_id].upload.is_complete(),
{
}

proof fn lemma_listing_is_onto(listing: Seq<FileDescriptor>, files: Map<u128, FileModel>, id: u128)
    requires
        tunnel::lists_files(listing, files),
        files.dom().finite(),
        files.contains_key(id),
    ensures
        exists|i: int| 0 <= i < listing.len() && (#[trigger] listing[i]).file_id == id,
{
    let ids = listing.map_values(|file: FileDescriptor| file.file_id);
    assert(ids.no_duplicates());
    ids.unique_seq_to_set();
    assert(ids.to_set().subset_of(files.dom())) by {
        assert forall|key: u128| ids.to_set().contains(key) implies files.dom().contains(key) by {
            let i = choose|i: int| 0 <= i < ids.len() && ids[i] == key;
            assert(files.contains_key(listing[i].file_id));
        }
    }
    vstd::set_lib::lemma_subset_equality(ids.to_set(), files.dom());
    assert(ids.to_set().contains(id));
    let i = choose|i: int| 0 <= i < ids.len() && ids[i] == id;
    assert(listing[i].file_id == id);
}

/// A snapshot leaves no file out.
pub proof fn law_snapshots_are_complete(
    listing: Seq<FileDescriptor>,
    tunnel: TunnelModel,
    file_id: u128,
)
    requires
        tunnel.is_consistent(),
        tunnel::lists_files(listing, tunnel.files),
        tunnel.files.contains_key(file_id),
    ensures
        listing.contains(tunnel.files[file_id].descriptor),
{
    lemma_listing_is_onto(listing, tunnel.files, file_id);
    let i = choose|i: int| 0 <= i < listing.len() && (#[trigger] listing[i]).file_id == file_id;
    assert(listing[i] == tunnel.files[file_id].descriptor);
}

} // verus!
