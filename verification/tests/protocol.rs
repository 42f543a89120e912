use ftnl_backend_api::protocol::{
    permits, progress_is_valid, Operation, Principal, ProtocolAction, ProtocolState,
    TransitionError,
};
use ftnl_backend_api::TunnelStatus;

const STATUSES: [TunnelStatus; 6] = [
    TunnelStatus::Waiting,
    TunnelStatus::Connected,
    TunnelStatus::Transferring,
    TunnelStatus::Complete,
    TunnelStatus::Cancelled,
    TunnelStatus::Expired,
];

fn principal(value: u8) -> Principal {
    match value % 4 {
        0 => Principal::PairingSecret,
        1 => Principal::Desktop,
        2 => Principal::Phone,
        _ => Principal::EventTicket,
    }
}

fn action(kind: u8, actor: u8, identity: u8) -> ProtocolAction {
    let principal = principal(actor);
    match kind % 8 {
        0 => ProtocolAction::Claim { principal },
        1 => ProtocolAction::MintEventTicket {
            principal,
            ticket: identity,
        },
        2 => ProtocolAction::RedeemEventTicket {
            principal,
            ticket: identity,
        },
        3 => ProtocolAction::DeclareFile {
            principal,
            file: identity,
        },
        4 => ProtocolAction::FinishUpload {
            principal,
            file: identity,
        },
        5 => ProtocolAction::DownloadFile {
            principal,
            file: identity,
        },
        6 => ProtocolAction::Cancel { principal },
        _ => ProtocolAction::Expire,
    }
}

#[test]
fn arbitrary_traces_preserve_protocol_invariants() {
    let mut seed: u64 = 0x9e37_79b9_7f4a_7c15;
    let mut next = || {
        seed ^= seed << 13;
        seed ^= seed >> 7;
        seed ^= seed << 17;
        (seed >> 32) as u8
    };
    for _ in 0..2000 {
        let mut state = ProtocolState::initial();
        assert!(state.invariants_hold());
        let length = next() % 96;
        for _ in 0..length {
            let before = state;
            let result = state.apply(action(next(), next(), next() % 4));
            assert!(state.invariants_hold());
            if result.is_err() {
                assert_eq!(state, before);
            }
        }
    }
}

#[test]
fn only_the_pairing_secret_can_claim() {
    for actor in 0..=u8::MAX {
        let mut state = ProtocolState::initial();
        let principal = principal(actor);
        let result = state.apply(ProtocolAction::Claim { principal });

        if principal == Principal::PairingSecret {
            assert!(result.is_ok());
            assert_eq!(state.status, TunnelStatus::Connected);
            assert!(!state.pairing_available);
            assert!(state.phone_capability_issued);
        } else {
            assert!(result.is_err());
            assert_eq!(state, ProtocolState::initial());
        }
    }
}

#[test]
fn pairing_and_event_tickets_are_one_time_capabilities() {
    let mut state = ProtocolState::initial();
    state
        .apply(ProtocolAction::Claim {
            principal: Principal::PairingSecret,
        })
        .unwrap();
    assert!(state
        .apply(ProtocolAction::Claim {
            principal: Principal::PairingSecret,
        })
        .is_err());

    state
        .apply(ProtocolAction::MintEventTicket {
            principal: Principal::Desktop,
            ticket: 0,
        })
        .unwrap();
    state
        .apply(ProtocolAction::RedeemEventTicket {
            principal: Principal::EventTicket,
            ticket: 0,
        })
        .unwrap();
    assert!(state
        .apply(ProtocolAction::RedeemEventTicket {
            principal: Principal::EventTicket,
            ticket: 0,
        })
        .is_err());
}

#[test]
fn capability_scopes_do_not_cross_privilege_boundaries() {
    for status in STATUSES {
        assert!(!permits(status, Principal::Phone, Operation::Cancel));
        assert!(!permits(status, Principal::Phone, Operation::DownloadFile));
        assert!(!permits(status, Principal::Desktop, Operation::DeclareFile));
        assert!(!permits(status, Principal::Desktop, Operation::UploadFile));
        assert!(!permits(
            status,
            Principal::PairingSecret,
            Operation::ReadSnapshot
        ));
    }
}

#[test]
fn the_matrix_is_open_where_it_should_be() {
    let rows = [
        (Principal::PairingSecret, Operation::Claim, vec![TunnelStatus::Waiting]),
        (
            Principal::Desktop,
            Operation::ReadSnapshot,
            vec![TunnelStatus::Waiting, TunnelStatus::Connected, TunnelStatus::Transferring, TunnelStatus::Complete],
        ),
        (
            Principal::Phone,
            Operation::ReadSnapshot,
            vec![TunnelStatus::Waiting, TunnelStatus::Connected, TunnelStatus::Transferring, TunnelStatus::Complete],
        ),
        (
            Principal::Desktop,
            Operation::Cancel,
            vec![TunnelStatus::Waiting, TunnelStatus::Connected, TunnelStatus::Transferring],
        ),
        (
            Principal::Phone,
            Operation::DeclareFile,
            vec![TunnelStatus::Connected, TunnelStatus::Transferring],
        ),
        (
            Principal::Phone,
            Operation::UploadFile,
            vec![TunnelStatus::Connected, TunnelStatus::Transferring],
        ),
        (
            Principal::Desktop,
            Operation::DownloadFile,
            vec![TunnelStatus::Connected, TunnelStatus::Transferring],
        ),
        (
            Principal::Phone,
            Operation::MintEventTicket,
            vec![TunnelStatus::Waiting, TunnelStatus::Connected, TunnelStatus::Transferring],
        ),
        (
            Principal::EventTicket,
            Operation::RedeemEventTicket,
            vec![TunnelStatus::Waiting, TunnelStatus::Connected, TunnelStatus::Transferring],
        ),
    ];
    for (principal, operation, open) in rows {
        for status in STATUSES {
            assert_eq!(
                permits(status, principal, operation),
                open.contains(&status),
                "{principal:?} {operation:?} {status:?}"
            );
        }
    }
}

#[test]
fn progress_validation_is_the_declared_bound() {
    assert!(progress_is_valid(10, 0));
    assert!(progress_is_valid(10, 10));
    assert!(!progress_is_valid(10, 11));
    assert!(progress_is_valid(u64::MAX, u64::MAX));
}

#[test]
fn claim_is_an_atomic_one_time_exchange() {
    let mut state = ProtocolState::default();
    let claim = ProtocolAction::Claim {
        principal: Principal::PairingSecret,
    };
    assert!(state.apply(claim).is_ok());
    let claimed = state;
    assert_eq!(state.apply(claim), Err(TransitionError::Unauthorized));
    assert_eq!(state, claimed);
    assert!(!state.pairing_available);
    assert!(state.phone_capability_issued);
    assert!(state.invariants_hold());
}

#[test]
fn rejected_finite_domain_transition_is_immutable() {
    for identity in 2..=u8::MAX {
        let mut state = ProtocolState::initial();
        let before = state;
        assert_eq!(
            state.apply(ProtocolAction::MintEventTicket {
                principal: Principal::Desktop,
                ticket: identity,
            }),
            Err(TransitionError::OutsideFiniteDomain)
        );
        assert_eq!(state, before);
    }
}

#[test]
fn the_last_download_completes_and_closes_tickets() {
    let phone = Principal::Phone;
    let desktop = Principal::Desktop;
    let mut state = ProtocolState::initial();
    for step in [
        ProtocolAction::Claim { principal: Principal::PairingSecret },
        ProtocolAction::MintEventTicket { principal: phone, ticket: 1 },
        ProtocolAction::DeclareFile { principal: phone, file: 0 },
        ProtocolAction::DeclareFile { principal: phone, file: 1 },
        ProtocolAction::FinishUpload { principal: phone, file: 0 },
        ProtocolAction::DownloadFile { principal: desktop, file: 0 },
    ] {
        assert_eq!(state.apply(step), Ok(()), "{step:?}");
    }
    assert_eq!(state.status, TunnelStatus::Transferring);
    assert_eq!(
        state.apply(ProtocolAction::DownloadFile { principal: desktop, file: 1 }),
        Err(TransitionError::Conflict)
    );
    assert_eq!(
        state.apply(ProtocolAction::DeclareFile { principal: phone, file: 1 }),
        Err(TransitionError::Conflict)
    );
    state
        .apply(ProtocolAction::FinishUpload { principal: phone, file: 1 })
        .unwrap();
    assert_eq!(state.active_tickets, 2);
    state
        .apply(ProtocolAction::DownloadFile { principal: desktop, file: 1 })
        .unwrap();
    assert_eq!(state.status, TunnelStatus::Complete);
    assert_eq!(state.active_tickets, 0);
    assert_eq!(state.issued_tickets, 2);
    assert_eq!(state.apply(ProtocolAction::Expire), Err(TransitionError::Conflict));
}

#[test]
fn broken_states_are_recognised() {
    let sound = ProtocolState::initial();
    let broken = [
        ProtocolState { declared_files: 4, ..sound },
        ProtocolState { available_files: 1, ..sound },
        ProtocolState { downloaded_files: 1, declared_files: 1, ..sound },
        ProtocolState { active_tickets: 1, ..sound },
        ProtocolState { issued_tickets: 8, ..sound },
        ProtocolState { phone_capability_issued: true, ..sound },
        ProtocolState { status: TunnelStatus::Connected, ..sound },
        ProtocolState { status: TunnelStatus::Complete, ..sound },
    ];
    for state in broken {
        assert!(!state.invariants_hold(), "{state:?}");
    }
    assert!(ProtocolState { status: TunnelStatus::Cancelled, ..sound }.invariants_hold());
}
