//! Pure File Tunnel capability and lifecycle policy.
//!
//! Every request handler asks [`permits`] for its authorization. The compact
//! [`ProtocolState`] is a finite model of one tunnel: two files, two tickets.
use vstd::prelude::*;

use crate::TunnelStatus;

verus! {

pub const MODEL_FILE_COUNT: u8 = 2;

pub const MODEL_TICKET_COUNT: u8 = 2;

/// Who asks: the scope of the capability that a request presents.
#[derive(Debug, Clone, Copy, PartialEq, Eq, Structural)]
pub enum Principal {
    PairingSecret,
    Desktop,
    Phone,
    EventTicket,
}

/// What is asked for.
#[derive(Debug, Clone, Copy, PartialEq, Eq, Structural)]
pub enum Operation {
    Claim,
    ReadSnapshot,
    Cancel,
    DeclareFile,
    UploadFile,
    DownloadFile,
    MintEventTicket,
    RedeemEventTicket,
}

/// The tunnel still accepts requests of some kind.
pub open spec fn is_open(status: TunnelStatus) -> bool {
    !(status is Cancelled) && !(status is Expired)
}

/// The tunnel is open and has not handed over its last file.
pub open spec fn is_unfinished(status: TunnelStatus) -> bool {
    is_open(status) && !(status is Complete)
}

/// A phone is paired and bytes may move.
pub open spec fn is_paired(status: TunnelStatus) -> bool {
    status is Connected || status is Transferring
}

/// The capability matrix: what each scope may do, and in which phases.
pub open spec fn permitted(
    status: TunnelStatus,
    principal: Principal,
    operation: Operation,
) -> bool {
    match principal {
        Principal::PairingSecret => operation is Claim && status is Waiting,
        Principal::Desktop => match operation {
            Operation::ReadSnapshot => is_open(status),
            Operation::Cancel | Operation::MintEventTicket => is_unfinished(status),
            Operation::DownloadFile => is_paired(status),
            _ => false,
        },
        Principal::Phone => match operation {
            Operation::ReadSnapshot => is_open(status),
            Operation::MintEventTicket => is_unfinished(status),
            Operation::DeclareFile | Operation::UploadFile => is_paired(status),
            _ => false,
        },
        Principal::EventTicket => operation is RedeemEventTicket && is_unfinished(status),
    }
}

/// Returns whether a capability scope may attempt an operation in this phase.
///
/// Possession and expiry checks remain the responsibility of the caller.
#[must_use]
pub fn permits(status: TunnelStatus, principal: Principal, operation: Operation) -> (answer: bool)
    ensures
        answer == permitted(status, principal, operation),
{
    if matches!(status, TunnelStatus::Cancelled | TunnelStatus::Expired) {
        return false;
    }
    match operation {
        Operation::Claim => matches!(status, TunnelStatus::Waiting) && matches!(
            principal,
            Principal::PairingSecret
        ),
        Operation::ReadSnapshot => matches!(principal, Principal::Desktop | Principal::Phone),
        Operation::Cancel => !matches!(status, TunnelStatus::Complete) && matches!(
            principal,
            Principal::Desktop
        ),
        Operation::DeclareFile | Operation::UploadFile => matches!(
            status,
            TunnelStatus::Connected | TunnelStatus::Transferring
        ) && matches!(principal, Principal::Phone),
        Operation::DownloadFile => matches!(
            status,
            TunnelStatus::Connected | TunnelStatus::Transferring
        ) && matches!(principal, Principal::Desktop),
        Operation::MintEventTicket => !matches!(status, TunnelStatus::Complete) && matches!(
            principal,
            Principal::Desktop | Principal::Phone
        ),
        Operation::RedeemEventTicket => !matches!(status, TunnelStatus::Complete) && matches!(
            principal,
            Principal::EventTicket
        ),
    }
}

/// Whether a transfer count stays within the declared size.
#[must_use]
pub fn progress_is_valid(size_bytes: u64, bytes_transferred: u64) -> (answer: bool)
    ensures
        answer == (bytes_transferred <= size_bytes),
{
    bytes_transferred <= size_bytes
}

/// One step that a party, or the clock, attempts.
#[derive(Debug, Clone, Copy, PartialEq, Eq, Structural)]
pub enum ProtocolAction {
    Claim { principal: Principal },
    MintEventTicket { principal: Principal, ticket: u8 },
    RedeemEventTicket { principal: Principal, ticket: u8 },
    DeclareFile { principal: Principal, file: u8 },
    FinishUpload { principal: Principal, file: u8 },
    DownloadFile { principal: Principal, file: u8 },
    Cancel { principal: Principal },
    Expire,
}

#[derive(Debug, Clone, Copy, PartialEq, Eq, Structural)]
pub enum TransitionError {
    Unauthorized,
    Conflict,
    OutsideFiniteDomain,
}

/// A deliberately small executable model of one tunnel.
///
/// Files and event tickets are represented as two-bit sets. This is not runtime
/// storage; it preserves the capability and lifecycle relationships that matter.
#[derive(Debug, Clone, Copy, PartialEq, Eq, Structural)]
pub struct ProtocolState {
    pub status: TunnelStatus,
    pub pairing_available: bool,
    pub phone_capability_issued: bool,
    pub issued_tickets: u8,
    pub active_tickets: u8,
    pub declared_files: u8,
    pub available_files: u8,
    pub downloaded_files: u8,
}

/// The identities whose bit is set in `bits`.
pub open spec fn members(bits: u8) -> Set<u8> {
    Set::new(|i: u8| i < 8 && (bits >> i) & 1 == 1)
}

/// What a [`ProtocolState`] stands for: identities as sets.
#[verifier::ext_equal]
pub struct ProtocolModel {
    pub status: TunnelStatus,
    pub pairing_available: bool,
    pub phone_capability_issued: bool,
    pub issued_tickets: Set<u8>,
    pub active_tickets: Set<u8>,
    pub declared_files: Set<u8>,
    pub available_files: Set<u8>,
    pub downloaded_files: Set<u8>,
}

impl View for ProtocolState {
    type V = ProtocolModel;

    open spec fn view(&self) -> ProtocolModel {
        ProtocolModel {
            status: self.status,
            pairing_available: self.pairing_available,
            phone_capability_issued: self.phone_capability_issued,
            issued_tickets: members(self.issued_tickets),
            active_tickets: members(self.active_tickets),
            declared_files: members(self.declared_files),
            available_files: members(self.available_files),
            downloaded_files: members(self.downloaded_files),
        }
    }
}

/// Every identity in `set` is below `count`.
pub open spec fn bounded(set: Set<u8>, count: u8) -> bool {
    forall|i: u8| #[trigger] set.contains(i) ==> i < count
}

impl ProtocolModel {
    /// What holds of every tunnel that only lawful steps have touched.
    pub open spec fn is_lawful(self) -> bool {
        &&& bounded(self.declared_files, MODEL_FILE_COUNT)
        &&& bounded(self.issued_tickets, MODEL_TICKET_COUNT)
        &&& self.available_files.subset_of(self.declared_files)
        &&& self.downloaded_files.subset_of(self.available_files)
        &&& self.active_tickets.subset_of(self.issued_tickets)
        &&& self.pairing_available != self.phone_capability_issued
        &&& match self.status {
            TunnelStatus::Waiting => !self.phone_capability_issued,
            TunnelStatus::Connected | TunnelStatus::Transferring => self.phone_capability_issued,
            TunnelStatus::Complete => {
                &&& self.phone_capability_issued
                &&& self.declared_files != Set::<u8>::empty()
                &&& self.downloaded_files == self.declared_files
                &&& self.active_tickets == Set::<u8>::empty()
            },
            TunnelStatus::Cancelled | TunnelStatus::Expired => true,
        }
    }

    /// The capability of `principal` exists and covers `operation` in this phase.
    pub open spec fn authorizes(self, principal: Principal, operation: Operation) -> bool {
        &&& principal is PairingSecret ==> self.pairing_available
        &&& principal is Phone ==> self.phone_capability_issued
        &&& permitted(self.status, principal, operation)
    }

    /// Why `action` is refused, if it is.
    pub open spec fn refusal(self, action: ProtocolAction) -> Option<TransitionError> {
        match action {
            ProtocolAction::Claim { principal } => if !self.authorizes(
                principal,
                Operation::Claim,
            ) {
                Some(TransitionError::Unauthorized)
            } else if self.phone_capability_issued {
                Some(TransitionError::Conflict)
            } else {
                None
            },
            ProtocolAction::MintEventTicket { principal, ticket } => refused(
                self.authorizes(principal, Operation::MintEventTicket),
                ticket < MODEL_TICKET_COUNT,
                !self.issued_tickets.contains(ticket),
            ),
            ProtocolAction::RedeemEventTicket { principal, ticket } => refused(
                self.authorizes(principal, Operation::RedeemEventTicket),
                ticket < MODEL_TICKET_COUNT,
                self.active_tickets.contains(ticket),
            ),
            ProtocolAction::DeclareFile { principal, file } => refused(
                self.authorizes(principal, Operation::DeclareFile),
                file < MODEL_FILE_COUNT,
                !self.declared_files.contains(file),
            ),
            ProtocolAction::FinishUpload { principal, file } => refused(
                self.authorizes(principal, Operation::UploadFile),
                file < MODEL_FILE_COUNT,
                self.declared_files.contains(file) && !self.available_files.contains(file),
            ),
            ProtocolAction::DownloadFile { principal, file } => refused(
                self.authorizes(principal, Operation::DownloadFile),
                file < MODEL_FILE_COUNT,
                self.available_files.contains(file) && !self.downloaded_files.contains(file),
            ),
            ProtocolAction::Cancel { principal } => refused(
                self.authorizes(principal, Operation::Cancel),
                true,
                true,
            ),
            ProtocolAction::Expire => refused(true, true, is_unfinished(self.status)),
        }
    }

    /// The tunnel after a granted `action`.
    pub open spec fn next(self, action: ProtocolAction) -> Self {
        match action {
            ProtocolAction::Claim { .. } => ProtocolModel {
                pairing_available: false,
                phone_capability_issued: true,
                status: TunnelStatus::Connected,
                ..self
            },
            ProtocolAction::MintEventTicket { ticket, .. } => ProtocolModel {
                issued_tickets: self.issued_tickets.insert(ticket),
                active_tickets: self.active_tickets.insert(ticket),
                ..self
            },
            ProtocolAction::RedeemEventTicket { ticket, .. } => ProtocolModel {
                active_tickets: self.active_tickets.remove(ticket),
                ..self
            },
            ProtocolAction::DeclareFile { file, .. } => ProtocolModel {
                declared_files: self.declared_files.insert(file),
                ..self
            },
            ProtocolAction::FinishUpload { file, .. } => ProtocolModel {
                available_files: self.available_files.insert(file),
                status: TunnelStatus::Transferring,
                ..self
            },
            ProtocolAction::DownloadFile { file, .. } => {
                let downloaded = ProtocolModel {
                    downloaded_files: self.downloaded_files.insert(file),
                    ..self
                };
                if downloaded.downloaded_files == self.declared_files {
                    downloaded.closed(TunnelStatus::Complete)
                } else {
                    downloaded
                }
            },
            ProtocolAction::Cancel { .. } => self.closed(TunnelStatus::Cancelled),
            ProtocolAction::Expire => self.closed(TunnelStatus::Expired),
        }
    }

    /// The tunnel in the final phase `status`: no ticket outlives it.
    pub open spec fn closed(self, status: TunnelStatus) -> Self {
        ProtocolModel { status, active_tickets: Set::empty(), ..self }
    }
}

/// The first of three conditions that fails decides the error.
pub open spec fn refused(authorized: bool, in_domain: bool, fits: bool) -> Option<
    TransitionError,
> {
    if !authorized {
        Some(TransitionError::Unauthorized)
    } else if !in_domain {
        Some(TransitionError::OutsideFiniteDomain)
    } else if !fits {
        Some(TransitionError::Conflict)
    } else {
        None
    }
}

proof fn lemma_members_test(bits: u8, i: u8)
    requires
        i < 8,
    ensures
        members(bits).contains(i) <==> bits & (1u8 << i) != 0,
{
    assert((bits >> i) & 1 == 1 <==> bits & (1u8 << i) != 0) by (bit_vector)
        requires
            i < 8,
    ;
}

proof fn lemma_members_insert(bits: u8, i: u8)
    requires
        i < 8,
    ensures
        members(bits | (1u8 << i)) == members(bits).insert(i),
{
    assert forall|j: u8|
        members(bits | (1u8 << i)).contains(j) <==> members(bits).insert(i).contains(j) by {
        if j < 8 {
            assert(((bits | (1u8 << i)) >> j) & 1 == 1 <==> (bits >> j) & 1 == 1 || i == j)
                by (bit_vector)
                requires
                    i < 8,
                    j < 8,
            ;
        }
    }
    assert(members(bits | (1u8 << i)) =~= members(bits).insert(i));
}

proof fn lemma_members_remove(bits: u8, i: u8)
    requires
        i < 8,
    ensures
        members(bits & !(1u8 << i)) == members(bits).remove(i),
{
    assert forall|j: u8|
        members(bits & !(1u8 << i)).contains(j) <==> members(bits).remove(i).contains(j) by {
        if j < 8 {
            assert(((bits & !(1u8 << i)) >> j) & 1 == 1 <==> (bits >> j) & 1 == 1 && i != j)
                by (bit_vector)
                requires
                    i < 8,
                    j < 8,
            ;
        }
    }
    assert(members(bits & !(1u8 << i)) =~= members(bits).remove(i));
}

proof fn lemma_members_subset(inner: u8, outer: u8)
    ensures
        members(inner).subset_of(members(outer)) <==> inner & !outer == 0,
{
    if inner & !outer == 0 {
        assert forall|j: u8| members(inner).contains(j) implies members(outer).contains(j) by {
            assert((outer >> j) & 1 == 1) by (bit_vector)
                requires
                    j < 8,
                    inner & !outer == 0,
                    (inner >> j) & 1 == 1,
            ;
        }
    }
    if members(inner).subset_of(members(outer)) {
        assert forall|j: u8| j < 8 && (inner >> j) & 1 == 1 implies (outer >> j) & 1 == 1 by {
            assert(members(inner).contains(j));
        }
        assert(inner & !outer == 0) by (bit_vector)
            requires
                (inner >> 0u8) & 1 == 1 ==> (outer >> 0u8) & 1 == 1,
                (inner >> 1u8) & 1 == 1 ==> (outer >> 1u8) & 1 == 1,
                (inner >> 2u8) & 1 == 1 ==> (outer >> 2u8) & 1 == 1,
                (inner >> 3u8) & 1 == 1 ==> (outer >> 3u8) & 1 == 1,
                (inner >> 4u8) & 1 == 1 ==> (outer >> 4u8) & 1 == 1,
                (inner >> 5u8) & 1 == 1 ==> (outer >> 5u8) & 1 == 1,
                (inner >> 6u8) & 1 == 1 ==> (outer >> 6u8) & 1 == 1,
                (inner >> 7u8) & 1 == 1 ==> (outer >> 7u8) & 1 == 1,
        ;
    }
}

proof fn lemma_members_equal(left: u8, right: u8)
    ensures
        members(left) == members(right) <==> left == right,
{
    if members(left) == members(right) {
        lemma_members_subset(left, right);
        lemma_members_subset(right, left);
        assert(left == right) by (bit_vector)
            requires
                left & !right == 0,
                right & !left == 0,
        ;
    }
}

proof fn lemma_members_empty(bits: u8)
    ensures
        members(bits) == Set::<u8>::empty() <==> bits == 0,
{
    assert forall|j: u8| !members(0).contains(j) by {
        assert((0u8 >> j) & 1 == 0) by (bit_vector);
    }
    assert(members(0) =~= Set::<u8>::empty());
    lemma_members_equal(bits, 0);
}

proof fn lemma_members_bounded(bits: u8)
    ensures
        bounded(members(bits), 2) <==> bits & !3u8 == 0,
{
    lemma_members_subset(bits, 3);
    assert forall|j: u8| members(3).contains(j) <==> j < 2 by {
        if j < 8 {
            assert((3u8 >> j) & 1 == 1 <==> j < 2) by (bit_vector)
                requires
                    j < 8,
            ;
        }
    }
    assert(bounded(members(bits), 2) <==> members(bits).subset_of(members(3)));
}

impl Default for ProtocolState {
    fn default() -> (state: Self)
        ensures
            state@ == initial_model(),
    {
        Self::initial()
    }
}

/// A fresh tunnel: it waits for its one pairing.
pub open spec fn initial_model() -> ProtocolModel {
    ProtocolModel {
        status: TunnelStatus::Waiting,
        pairing_available: true,
        phone_capability_issued: false,
        issued_tickets: Set::empty(),
        active_tickets: Set::empty(),
        declared_files: Set::empty(),
        available_files: Set::empty(),
        downloaded_files: Set::empty(),
    }
}

impl ProtocolState {
    #[must_use]
    pub fn initial() -> (state: Self)
        ensures
            state@ == initial_model(),
            state@.is_lawful(),
    {
        proof {
            lemma_members_empty(0);
        }
        Self {
            status: TunnelStatus::Waiting,
            pairing_available: true,
            phone_capability_issued: false,
            issued_tickets: 0,
            active_tickets: 0,
            declared_files: 0,
            available_files: 0,
            downloaded_files: 0,
        }
    }

    #[must_use]
    pub fn invariants_hold(self) -> (answer: bool)
        ensures
            answer == self@.is_lawful(),
    {
        proof {
            assert((1u8 << 2u8) - 1 == 3) by (bit_vector);
            lemma_members_bounded(self.declared_files);
            lemma_members_bounded(self.available_files);
            lemma_members_bounded(self.downloaded_files);
            lemma_members_bounded(self.issued_tickets);
            lemma_members_bounded(self.active_tickets);
            lemma_members_subset(self.available_files, self.declared_files);
            lemma_members_subset(self.downloaded_files, self.available_files);
            lemma_members_subset(self.active_tickets, self.issued_tickets);
            lemma_members_empty(self.declared_files);
            lemma_members_empty(self.active_tickets);
            lemma_members_equal(self.downloaded_files, self.declared_files);
        }
        let domain_mask: u8 = (1u8 << MODEL_FILE_COUNT) - 1;
        let ticket_mask: u8 = (1u8 << MODEL_TICKET_COUNT) - 1;
        let sets_are_bounded: bool = self.declared_files & !domain_mask == 0
            && self.available_files & !domain_mask == 0 && self.downloaded_files & !domain_mask == 0
            && self.issued_tickets & !ticket_mask == 0 && self.active_tickets & !ticket_mask == 0;
        let file_ordering: bool = self.available_files & !self.declared_files == 0
            && self.downloaded_files & !self.available_files == 0;
        let ticket_ordering: bool = self.active_tickets & !self.issued_tickets == 0;
        let capability_exchange: bool = self.pairing_available != self.phone_capability_issued;
        let phase_consistency: bool = match self.status {
            TunnelStatus::Waiting => !self.phone_capability_issued,
            TunnelStatus::Connected | TunnelStatus::Transferring => self.phone_capability_issued,
            TunnelStatus::Complete => self.phone_capability_issued && self.declared_files != 0
                && self.downloaded_files == self.declared_files && self.active_tickets == 0,
            TunnelStatus::Cancelled | TunnelStatus::Expired => true,
        };
        sets_are_bounded && file_ordering && ticket_ordering && capability_exchange
            && phase_consistency
    }

    /// Attempts one step. A refused step leaves the state as it was, and no
    /// step leads out of the invariant.
    pub fn apply(&mut self, action: ProtocolAction) -> (result: Result<(), TransitionError>)
        ensures
            match old(self)@.refusal(action) {
                Some(error) => result == Err::<(), TransitionError>(error) && *final(self) == *old(
                    self,
                ),
                None => result is Ok && final(self)@ == old(self)@.next(action),
            },
            old(self)@.is_lawful() ==> final(self)@.is_lawful(),
    {
        let before: ProtocolState = *self;
        let result: Result<(), TransitionError> = self.apply_inner(action);
        if result.is_err() {
            *self = before;
        }
        proof {
            if before@.refusal(action) is None && before@.is_lawful() {
                lemma_step_keeps_invariant(before@, action);
            }
        }
        result
    }

    /// Carries out one step, or refuses it before anything has changed.
    fn apply_inner(&mut self, action: ProtocolAction) -> (result: Result<(), TransitionError>)
        ensures
            match old(self)@.refusal(action) {
                Some(error) => result == Err::<(), TransitionError>(error) && *final(self) == *old(
                    self,
                ),
                None => result is Ok && final(self)@ == old(self)@.next(action),
            },
    {
        match action {
            ProtocolAction::Claim { principal } => {
                self.authorize(principal, Operation::Claim)?;
                if !self.pairing_available || self.phone_capability_issued {
                    return Err(TransitionError::Conflict);
                }
                self.pairing_available = false;
                self.phone_capability_issued = true;
                self.status = TunnelStatus::Connected;
            },
            ProtocolAction::MintEventTicket { principal, ticket } => {
                self.authorize(principal, Operation::MintEventTicket)?;
                let bit: u8 = domain_bit(ticket, MODEL_TICKET_COUNT)?;
                proof {
                    lemma_members_test(self.issued_tickets, ticket);
                    lemma_members_insert(self.issued_tickets, ticket);
                    lemma_members_insert(self.active_tickets, ticket);
                }
                if self.issued_tickets & bit != 0 {
                    return Err(TransitionError::Conflict);
                }
                self.issued_tickets = self.issued_tickets | bit;
                self.active_tickets = self.active_tickets | bit;
            },
            ProtocolAction::RedeemEventTicket { principal, ticket } => {
                self.authorize(principal, Operation::RedeemEventTicket)?;
                let bit: u8 = domain_bit(ticket, MODEL_TICKET_COUNT)?;
                proof {
                    lemma_members_test(self.active_tickets, ticket);
                    lemma_members_remove(self.active_tickets, ticket);
                }
                if self.active_tickets & bit == 0 {
                    return Err(TransitionError::Conflict);
                }
                self.active_tickets = self.active_tickets & !bit;
            },
            ProtocolAction::DeclareFile { principal, file } => {
                self.authorize(principal, Operation::DeclareFile)?;
                let bit: u8 = domain_bit(file, MODEL_FILE_COUNT)?;
                proof {
                    lemma_members_test(self.declared_files, file);
                    lemma_members_insert(self.declared_files, file);
                }
                if self.declared_files & bit != 0 {
                    return Err(TransitionError::Conflict);
                }
                self.declared_files = self.declared_files | bit;
            },
            ProtocolAction::FinishUpload { principal, file } => {
                self.authorize(principal, Operation::UploadFile)?;
                let bit: u8 = domain_bit(file, MODEL_FILE_COUNT)?;
                proof {
                    lemma_members_test(self.declared_files, file);
                    lemma_members_test(self.available_files, file);
                    lemma_members_insert(self.available_files, file);
                }
                if self.declared_files & bit == 0 || self.available_files & bit != 0 {
                    return Err(TransitionError::Conflict);
                }
                self.available_files = self.available_files | bit;
                self.status = TunnelStatus::Transferring;
            },
            ProtocolAction::DownloadFile { principal, file } => {
                self.authorize(principal, Operation::DownloadFile)?;
                let bit: u8 = domain_bit(file, MODEL_FILE_COUNT)?;
                proof {
                    lemma_members_test(self.available_files, file);
                    lemma_members_test(self.downloaded_files, file);
                    lemma_members_insert(self.downloaded_files, file);
                    lemma_members_equal(self.downloaded_files | bit, self.declared_files);
                    lemma_members_empty(0);
                }
                if self.available_files & bit == 0 || self.downloaded_files & bit != 0 {
                    return Err(TransitionError::Conflict);
                }
                self.downloaded_files = self.downloaded_files | bit;
                if self.downloaded_files == self.declared_files {
                    self.status = TunnelStatus::Complete;
                    self.active_tickets = 0;
                }
            },
            ProtocolAction::Cancel { principal } => {
                self.authorize(principal, Operation::Cancel)?;
                self.status = TunnelStatus::Cancelled;
                self.active_tickets = 0;
                proof {
                    lemma_members_empty(0);
                }
            },
            ProtocolAction::Expire => {
                if matches!(
                    self.status,
                    TunnelStatus::Complete | TunnelStatus::Cancelled | TunnelStatus::Expired
                ) {
                    return Err(TransitionError::Conflict);
                }
                self.status = TunnelStatus::Expired;
                self.active_tickets = 0;
                proof {
                    lemma_members_empty(0);
                }
            },
        }
        Ok(())
    }

    fn authorize(self, principal: Principal, operation: Operation) -> (result: Result<
        (),
        TransitionError,
    >)
        ensures
            result == if self@.authorizes(principal, operation) {
                Ok(())
            } else {
                Err(TransitionError::Unauthorized)
            },
    {
        let capability_exists: bool = match principal {
            Principal::PairingSecret => self.pairing_available,
            Principal::Desktop => true,
            Principal::Phone => self.phone_capability_issued,
            Principal::EventTicket => true,
        };
        if capability_exists && permits(self.status, principal, operation) {
            Ok(())
        } else {
            Err(TransitionError::Unauthorized)
        }
    }
}

/// The bit of identity `index`, where it is one of `count`.
fn domain_bit(index: u8, count: u8) -> (result: Result<u8, TransitionError>)
    requires
        count <= 8,
    ensures
        result == if index < count {
            Ok(1u8 << index)
        } else {
            Err(TransitionError::OutsideFiniteDomain)
        },
{
    if index >= count {
        return Err(TransitionError::OutsideFiniteDomain);
    }
    Ok(1u8 << index)
}

/// No granted step leads out of the invariant.
pub proof fn lemma_step_keeps_invariant(state: ProtocolModel, action: ProtocolAction)
    requires
        state.is_lawful(),
        state.refusal(action) is None,
    ensures
        state.next(action).is_lawful(),
{
    let next = state.next(action);
    if let ProtocolAction::DownloadFile { file, .. } = action {
        assert(state.declared_files.contains(file));
    }
}

} // verus!
