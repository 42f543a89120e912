//! Laws of the capability matrix and of the finite tunnel model.
use vstd::prelude::*;

use crate::protocol;
use crate::protocol::{Operation, Principal, ProtocolAction, ProtocolModel, TransitionError};
use crate::TunnelStatus;

verus! {

/// The scopes of the capabilities do not cross: a phone neither cancels nor
/// fetches, a desktop neither declares nor uploads, the pairing secret does
/// nothing but claim and an event ticket nothing but subscribe.
pub proof fn law_scopes_do_not_cross(status: TunnelStatus, operation: Operation)
    ensures
        !protocol::permitted(status, Principal::Phone, Operation::Cancel),
        !protocol::permitted(status, Principal::Phone, Operation::DownloadFile),
        !protocol::permitted(status, Principal::Desktop, Operation::DeclareFile),
        !protocol::permitted(status, Principal::Desktop, Operation::UploadFile),
        protocol::permitted(status, Principal::PairingSecret, operation) ==> operation is Claim,
        protocol::permitted(status, Principal::EventTicket, operation)
            ==> operation is RedeemEventTicket,
{
}

/// In a tunnel that was cancelled or has expired, nobody may do anything.
pub proof fn law_closed_tunnels_permit_nothing(
    status: TunnelStatus,
    principal: Principal,
    operation: Operation,
)
    requires
        status is Cancelled || status is Expired,
    ensures
        !protocol::permitted(status, principal, operation),
{
}

/// The state after `action` was attempted: a refused one changes nothing.
pub open spec fn attempted(state: ProtocolModel, action: ProtocolAction) -> ProtocolModel {
    if state.refusal(action) is None {
        state.next(action)
    } else {
        state
    }
}

/// The state after every action of a trace was attempted.
pub open spec fn traced(state: ProtocolModel, trace: Seq<ProtocolAction>) -> ProtocolModel
    decreases trace.len(),
{
    if trace.len() == 0 {
        state
    } else {
        attempted(traced(state, trace.drop_last()), trace.last())
    }
}

/// No sequence of attempts leads out of the invariant.
pub proof fn law_traces_stay_lawful(state: ProtocolModel, trace: Seq<ProtocolAction>)
    requires
        state.is_lawful(),
    ensures
        traced(state, trace).is_lawful(),
    decreases trace.len(),
{
    if trace.len() > 0 {
        law_traces_stay_lawful(state, trace.drop_last());
        let before = traced(state, trace.drop_last());
        if before.refusal(trace.last()) is None {
            protocol::lemma_step_keeps_invariant(before, trace.last());
        }
    }
}

/// A fresh tunnel is claimed with the pairing secret and with nothing else.
pub proof fn law_only_the_pairing_secret_claims(principal: Principal)
    ensures
        protocol::initial_model().refusal(ProtocolAction::Claim { principal }) is None
            <==> principal is PairingSecret,
        principal is PairingSecret ==> {
            let claimed = protocol::initial_model().next(ProtocolAction::Claim { principal });
            claimed.status is Connected && !claimed.pairing_available
                && claimed.phone_capability_issued
        },
{
}

/// The pairing secret is exchanged at most once: after a claim, no sequence of
/// attempts brings it back, and every further claim is refused.
pub proof fn law_pairing_is_exchanged_once(
    state: ProtocolModel,
    first: Principal,
    trace: Seq<ProtocolAction>,
    second: Principal,
)
    requires
        state.refusal(ProtocolAction::Claim { principal: first }) is None,
    ensures
        traced(state.next(ProtocolAction::Claim { principal: first }), trace).refusal(
            ProtocolAction::Claim { principal: second },
        ) is Some,
        !traced(
            state.next(ProtocolAction::Claim { principal: first }),
            trace,
        ).pairing_available,
    decreases trace.len(),
{
    if trace.len() > 0 {
        law_pairing_is_exchanged_once(state, first, trace.drop_last(), second);
    }
}

proof fn lemma_issued_stays(state: ProtocolModel, trace: Seq<ProtocolAction>, ticket: u8)
    requires
        state.issued_tickets.contains(ticket),
    ensures
        traced(state, trace).issued_tickets.contains(ticket),
        !state.active_tickets.contains(ticket) ==> !traced(state, trace).active_tickets.contains(
            ticket,
        ),
    decreases trace.len(),
{
    if trace.len() > 0 {
        lemma_issued_stays(state, trace.drop_last(), ticket);
    }
}

/// A ticket identity is issued at most once.
pub proof fn law_ticket_is_issued_once(
    state: ProtocolModel,
    first: Principal,
    ticket: u8,
    trace: Seq<ProtocolAction>,
    second: Principal,
)
    requires
        state.refusal(ProtocolAction::MintEventTicket { principal: first, ticket }) is None,
    ensures
        traced(
            state.next(ProtocolAction::MintEventTicket { principal: first, ticket }),
            trace,
        ).refusal(ProtocolAction::MintEventTicket { principal: second, ticket }) is Some,
{
    lemma_issued_stays(
        state.next(ProtocolAction::MintEventTicket { principal: first, ticket }),
        trace,
        ticket,
    );
}

/// A ticket is redeemed at most once.
pub proof fn law_ticket_is_redeemed_once(
    state: ProtocolModel,
    first: Principal,
    ticket: u8,
    trace: Seq<ProtocolAction>,
    second: Principal,
)
    requires
        state.is_lawful(),
        state.refusal(ProtocolAction::RedeemEventTicket { principal: first, ticket }) is None,
    ensures
        traced(
            state.next(ProtocolAction::RedeemEventTicket { principal: first, ticket }),
            trace,
        ).refusal(ProtocolAction::RedeemEventTicket { principal: second, ticket }) is Some,
{
    lemma_issued_stays(
        state.next(ProtocolAction::RedeemEventTicket { principal: first, ticket }),
        trace,
        ticket,
    );
}

/// A file becomes available only after it was declared, and is fetched only
/// after it became available.
pub proof fn law_files_go_through_their_stages(
    state: ProtocolModel,
    principal: Principal,
    file: u8,
)
    ensures
        state.refusal(ProtocolAction::FinishUpload { principal, file }) is None
            ==> state.declared_files.contains(file),
        state.refusal(ProtocolAction::DownloadFile { principal, file }) is None
            ==> state.available_files.contains(file),
{
}

/// A tunnel is complete only once every declared file has been fetched.
pub proof fn law_completion_needs_every_file(trace: Seq<ProtocolAction>)
    ensures
        traced(protocol::initial_model(), trace).status is Complete ==> {
            let state = traced(protocol::initial_model(), trace);
            state.downloaded_files == state.declared_files && state.declared_files != Set::<
                u8,
            >::empty()
        },
{
    assert(protocol::initial_model().is_lawful());
    law_traces_stay_lawful(protocol::initial_model(), trace);
}

/// Completion, cancellation and expiry close every outstanding ticket, and no
/// ticket is issued afterwards.
pub proof fn law_closed_tunnels_have_no_tickets(trace: Seq<ProtocolAction>)
    ensures
        !protocol::is_unfinished(traced(protocol::initial_model(), trace).status) ==> traced(
            protocol::initial_model(),
            trace,
        ).active_tickets == Set::<u8>::empty(),
    decreases trace.len(),
{
    if trace.len() > 0 {
        law_closed_tunnels_have_no_tickets(trace.drop_last());
        let before = traced(protocol::initial_model(), trace.drop_last());
        let after = traced(protocol::initial_model(), trace);
        if !protocol::is_unfinished(before.status) {
            assert(after.active_tickets =~= Set::<u8>::empty());
        }
    }
}

/// An identity outside the finite domain is refused, whoever asks and whatever
/// the state.
pub proof fn law_identities_are_finite(state: ProtocolModel, principal: Principal, identity: u8)
    requires
        identity >= protocol::MODEL_TICKET_COUNT,
        identity >= protocol::MODEL_FILE_COUNT,
    ensures
        state.refusal(
            ProtocolAction::MintEventTicket { principal, ticket: identity },
        ) is Some,
        state.refusal(
            ProtocolAction::RedeemEventTicket { principal, ticket: identity },
        ) is Some,
        state.refusal(ProtocolAction::DeclareFile { principal, file: identity }) is Some,
        state.refusal(ProtocolAction::FinishUpload { principal, file: identity }) is Some,
        state.refusal(ProtocolAction::DownloadFile { principal, file: identity }) is Some,
{
}

/// Each operation is open to the parties it is for, in the phases it is for, and
/// to nobody else: claiming to the pairing secret while the tunnel waits;
/// reading to both parties until the tunnel is cancelled or expires; cancelling
/// to the desktop until it is over; declaring and uploading to the phone, and
/// fetching to the desktop, while they are paired; minting tickets to both, and
/// redeeming them to the ticket, until it is over.
pub proof fn law_who_may_do_what_when(status: TunnelStatus, principal: Principal)
    ensures
        ({
            let waiting = status == TunnelStatus::Waiting;
            let paired = status == TunnelStatus::Connected || status == TunnelStatus::Transferring;
            let complete = status == TunnelStatus::Complete;
            let desktop = principal == Principal::Desktop;
            let phone = principal == Principal::Phone;
            &&& protocol::permitted(status, principal, Operation::Claim) <==> principal
                == Principal::PairingSecret && waiting
            &&& protocol::permitted(status, principal, Operation::ReadSnapshot) <==> (desktop
                || phone) && (waiting || paired || complete)
            &&& protocol::permitted(status, principal, Operation::Cancel) <==> desktop && (waiting
                || paired)
            &&& protocol::permitted(status, principal, Operation::DeclareFile) <==> phone && paired
            &&& protocol::permitted(status, principal, Operation::UploadFile) <==> phone && paired
            &&& protocol::permitted(status, principal, Operation::DownloadFile) <==> desktop
                && paired
            &&& protocol::permitted(status, principal, Operation::MintEventTicket) <==> (desktop
                || phone) && (waiting || paired)
            &&& protocol::permitted(status, principal, Operation::RedeemEventTicket) <==> principal
                == Principal::EventTicket && (waiting || paired)
        }),
{
}

/// The party holds a capability: the pairing secret until it is exchanged, the
/// phone from then on, the desktop and a ticket always.
pub open spec fn is_equipped(state: ProtocolModel, principal: Principal) -> bool {
    &&& principal == Principal::PairingSecret ==> state.pairing_available
    &&& principal == Principal::Phone ==> state.phone_capability_issued
}

/// A step whose party is not equipped or not permitted is unauthorized.
pub proof fn law_unauthorized_steps(state: ProtocolModel, principal: Principal, identity: u8)
    ensures
        ({
            let may = |operation: Operation|
                is_equipped(state, principal) && protocol::permitted(
                    state.status,
                    principal,
                    operation,
                );
            let unauthorized = Some(TransitionError::Unauthorized);
            &&& state.refusal(ProtocolAction::Claim { principal }) == unauthorized <==> !may(
                Operation::Claim,
            )
            &&& state.refusal(ProtocolAction::MintEventTicket { principal, ticket: identity })
                == unauthorized <==> !may(Operation::MintEventTicket)
            &&& state.refusal(ProtocolAction::RedeemEventTicket { principal, ticket: identity })
                == unauthorized <==> !may(Operation::RedeemEventTicket)
            &&& state.refusal(ProtocolAction::DeclareFile { principal, file: identity })
                == unauthorized <==> !may(Operation::DeclareFile)
            &&& state.refusal(ProtocolAction::FinishUpload { principal, file: identity })
                == unauthorized <==> !may(Operation::UploadFile)
            &&& state.refusal(ProtocolAction::DownloadFile { principal, file: identity })
                == unauthorized <==> !may(Operation::DownloadFile)
            &&& state.refusal(ProtocolAction::Cancel { principal }) == unauthorized <==> !may(
                Operation::Cancel,
            )
            &&& state.refusal(ProtocolAction::Expire) != unauthorized
        }),
{
}

/// A step by a party that may take it is refused as outside the domain where its
/// identity is not 0 or 1, as a conflict where the identity is not at the stage
/// that the step needs, and otherwise granted.
pub proof fn law_steps_need_their_stage(state: ProtocolModel, principal: Principal, identity: u8)
    ensures
        ({
            let stage = |fits: bool|
                if identity != 0 && identity != 1 {
                    Some(TransitionError::OutsideFiniteDomain)
                } else if fits {
                    None
                } else {
                    Some(TransitionError::Conflict)
                };
            let unauthorized = Some(TransitionError::Unauthorized);
            let mint = state.refusal(
                ProtocolAction::MintEventTicket { principal, ticket: identity },
            );
            let redeem = state.refusal(
                ProtocolAction::RedeemEventTicket { principal, ticket: identity },
            );
            let declare = state.refusal(ProtocolAction::DeclareFile { principal, file: identity });
            let finish = state.refusal(ProtocolAction::FinishUpload { principal, file: identity });
            let download = state.refusal(
                ProtocolAction::DownloadFile { principal, file: identity },
            );
            let claim = state.refusal(ProtocolAction::Claim { principal });
            &&& mint != unauthorized ==> mint == stage(!state.issued_tickets.contains(identity))
            &&& redeem != unauthorized ==> redeem == stage(state.active_tickets.contains(identity))
            &&& declare != unauthorized ==> declare == stage(
                !state.declared_files.contains(identity),
            )
            &&& finish != unauthorized ==> finish == stage(
                state.declared_files.contains(identity) && !state.available_files.contains(
                    identity,
                ),
            )
            &&& download != unauthorized ==> download == stage(
                state.available_files.contains(identity) && !state.downloaded_files.contains(
                    identity,
                ),
            )
            &&& claim != unauthorized ==> claim == if state.phone_capability_issued {
                Some(TransitionError::Conflict)
            } else {
                None
            }
            &&& state.refusal(ProtocolAction::Cancel { principal }) != unauthorized ==> state.refusal(
                ProtocolAction::Cancel { principal },
            ) is None
            &&& state.refusal(ProtocolAction::Expire) == if state.status == TunnelStatus::Complete
                || state.status == TunnelStatus::Cancelled || state.status == TunnelStatus::Expired {
                Some(TransitionError::Conflict)
            } else {
                None
            }
        }),
{
}

/// `after` agrees with `before` on everything but the tickets.
pub open spec fn same_but_tickets(before: ProtocolModel, after: ProtocolModel) -> bool {
    &&& after.status == before.status
    &&& same_capabilities(before, after)
    &&& same_files(before, after)
}

/// Who holds a capability is the same.
pub open spec fn same_capabilities(before: ProtocolModel, after: ProtocolModel) -> bool {
    after.pairing_available == before.pairing_available && after.phone_capability_issued
        == before.phone_capability_issued
}

/// The files are at the same stages.
pub open spec fn same_files(before: ProtocolModel, after: ProtocolModel) -> bool {
    after.declared_files == before.declared_files && after.available_files
        == before.available_files && after.downloaded_files == before.downloaded_files
}

/// The tickets are the same.
pub open spec fn same_tickets(before: ProtocolModel, after: ProtocolModel) -> bool {
    after.issued_tickets == before.issued_tickets && after.active_tickets == before.active_tickets
}

/// The declared files are this one and those that were fetched before.
pub open spec fn is_last_owed(state: ProtocolModel, file: u8) -> bool {
    forall|i: u8| #[trigger]
        state.declared_files.contains(i) == (state.downloaded_files.contains(i) || i == file)
}

/// A granted step does to its identity what it is named for, and leaves every
/// other identity and everything else as it was.
pub proof fn law_granted_steps(
    state: ProtocolModel,
    principal: Principal,
    identity: u8,
    other: u8,
)
    ensures
        ({
            let claimed = state.next(ProtocolAction::Claim { principal });
            &&& !claimed.pairing_available
            &&& claimed.phone_capability_issued
            &&& claimed.status == TunnelStatus::Connected
            &&& same_files(state, claimed)
            &&& same_tickets(state, claimed)
        }),
        ({
            let minted = state.next(
                ProtocolAction::MintEventTicket { principal, ticket: identity },
            );
            &&& same_but_tickets(state, minted)
            &&& minted.issued_tickets.contains(other) <==> other == identity
                || state.issued_tickets.contains(other)
            &&& minted.active_tickets.contains(other) <==> other == identity
                || state.active_tickets.contains(other)
        }),
        ({
            let redeemed = state.next(
                ProtocolAction::RedeemEventTicket { principal, ticket: identity },
            );
            &&& same_but_tickets(state, redeemed)
            &&& redeemed.issued_tickets == state.issued_tickets
            &&& redeemed.active_tickets.contains(other) <==> other != identity
                && state.active_tickets.contains(other)
        }),
        ({
            let declared = state.next(ProtocolAction::DeclareFile { principal, file: identity });
            &&& declared.status == state.status
            &&& same_capabilities(state, declared)
            &&& same_tickets(state, declared)
            &&& declared.available_files == state.available_files
            &&& declared.downloaded_files == state.downloaded_files
            &&& declared.declared_files.contains(other) <==> other == identity
                || state.declared_files.contains(other)
        }),
        ({
            let finished = state.next(ProtocolAction::FinishUpload { principal, file: identity });
            &&& finished.status == TunnelStatus::Transferring
            &&& same_capabilities(state, finished)
            &&& same_tickets(state, finished)
            &&& finished.declared_files == state.declared_files
            &&& finished.downloaded_files == state.downloaded_files
            &&& finished.available_files.contains(other) <==> other == identity
                || state.available_files.contains(other)
        }),
        ({
            let fetched = state.next(ProtocolAction::DownloadFile { principal, file: identity });
            let last = is_last_owed(state, identity);
            &&& same_capabilities(state, fetched)
            &&& fetched.issued_tickets == state.issued_tickets
            &&& fetched.declared_files == state.declared_files
            &&& fetched.available_files == state.available_files
            &&& fetched.downloaded_files.contains(other) <==> other == identity
                || state.downloaded_files.contains(other)
            &&& last ==> fetched.status == TunnelStatus::Complete
                && !fetched.active_tickets.contains(other)
            &&& !last ==> fetched.status == state.status && fetched.active_tickets
                == state.active_tickets
        }),
{
    let fetched = state.downloaded_files.insert(identity);
    if is_last_owed(state, identity) {
        assert forall|i: u8| fetched.contains(i) <==> state.declared_files.contains(i) by {
            assert(state.declared_files.contains(i) || !state.declared_files.contains(i));
        }
        assert(fetched =~= state.declared_files);
    }
    if fetched == state.declared_files {
        assert forall|i: u8| #[trigger]
            state.declared_files.contains(i) == (state.downloaded_files.contains(i) || i
                == identity) by {
            assert(fetched.contains(i) == (state.downloaded_files.contains(i) || i == identity));
        }
    }
}

/// Cancellation and expiry set their phase, close every ticket and leave
/// everything else as it was.
pub proof fn law_closing_steps(state: ProtocolModel, principal: Principal, ticket: u8)
    ensures
        state.next(ProtocolAction::Cancel { principal }).status == TunnelStatus::Cancelled,
        state.next(ProtocolAction::Expire).status == TunnelStatus::Expired,
        !state.next(ProtocolAction::Cancel { principal }).active_tickets.contains(ticket),
        !state.next(ProtocolAction::Expire).active_tickets.contains(ticket),
        same_files(state, state.next(ProtocolAction::Cancel { principal })),
        same_files(state, state.next(ProtocolAction::Expire)),
        same_capabilities(state, state.next(ProtocolAction::Cancel { principal })),
        same_capabilities(state, state.next(ProtocolAction::Expire)),
        state.next(ProtocolAction::Cancel { principal }).issued_tickets == state.issued_tickets,
        state.next(ProtocolAction::Expire).issued_tickets == state.issued_tickets,
{
}

/// The invariant, identity by identity.
pub open spec fn is_sound(state: ProtocolModel) -> bool {
    &&& forall|i: u8| #[trigger] state.declared_files.contains(i) ==> i == 0 || i == 1
    &&& forall|i: u8| #[trigger] state.issued_tickets.contains(i) ==> i == 0 || i == 1
    &&& forall|i: u8| #[trigger]
        state.available_files.contains(i) ==> state.declared_files.contains(i)
    &&& forall|i: u8| #[trigger]
        state.downloaded_files.contains(i) ==> state.available_files.contains(i)
    &&& forall|i: u8| #[trigger]
        state.active_tickets.contains(i) ==> state.issued_tickets.contains(i)
    &&& state.pairing_available != state.phone_capability_issued
    &&& state.status == TunnelStatus::Waiting ==> !state.phone_capability_issued
    &&& state.status == TunnelStatus::Connected || state.status == TunnelStatus::Transferring
        || state.status == TunnelStatus::Complete ==> state.phone_capability_issued
    &&& state.status == TunnelStatus::Complete ==> {
        &&& exists|i: u8| #[trigger] state.declared_files.contains(i)
        &&& forall|i: u8| #[trigger]
            state.declared_files.contains(i) ==> state.downloaded_files.contains(i)
        &&& forall|i: u8| !#[trigger] state.active_tickets.contains(i)
    }
}

/// The invariant says of every identity what it should, and no more.
pub proof fn law_what_is_lawful(state: ProtocolModel)
    ensures
        state.is_lawful() <==> is_sound(state),
{
    if state.is_lawful() && state.status is Complete {
        if forall|i: u8| !#[trigger] state.declared_files.contains(i) {
            assert(state.declared_files =~= Set::<u8>::empty());
        }
        assert forall|i: u8| #[trigger]
            state.declared_files.contains(i) implies state.downloaded_files.contains(i) by {}
    }
    if is_sound(state) {
        if state.status is Complete {
            assert(state.downloaded_files =~= state.declared_files);
            assert(state.active_tickets =~= Set::<u8>::empty());
            let i = choose|i: u8| #[trigger] state.declared_files.contains(i);
            assert(state.declared_files.contains(i));
        }
        assert(state.is_lawful());
    }
}

/// A fresh tunnel waits with its pairing secret, without phone, files or
/// tickets; and a set of identities is read from its bits one by one.
pub proof fn law_fresh_model(identity: u8, bits: u8)
    ensures
        ({
            let fresh = protocol::initial_model();
            &&& fresh.status == TunnelStatus::Waiting
            &&& fresh.pairing_available
            &&& !fresh.phone_capability_issued
            &&& !fresh.issued_tickets.contains(identity)
            &&& !fresh.active_tickets.contains(identity)
            &&& !fresh.declared_files.contains(identity)
            &&& !fresh.available_files.contains(identity)
            &&& !fresh.downloaded_files.contains(identity)
        }),
        identity < 8 ==> (protocol::members(bits).contains(identity) <==> (bits >> identity) & 1
            == 1),
{
}

} // verus!
