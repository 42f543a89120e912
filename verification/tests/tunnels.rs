use ftnl_backend_api::capability::token_hash;
use ftnl_backend_api::limits::{
    default_accept, default_expires_seconds, default_max_file_bytes, default_max_files,
};
use ftnl_backend_api::problem::{ApiError, InvalidRequest, RangeProblem};
use ftnl_backend_api::resumable::{RangeError, UploadError};
use ftnl_backend_api::time::Timestamp;
use ftnl_backend_api::tunnel::EventStamp;
use ftnl_backend_api::upload::UploadResponse;
use ftnl_backend_api::{
    AppState, ClaimTunnelRequest, CreateTunnelRequest, DeclareFileRequest, FileStatus, TunnelEvent,
    TunnelStatus,
};

const TUNNEL: u128 = 0x1111;
const OTHER: u128 = 0x2222;
const FILE: u128 = 0xf1;
const SECRET: &str = "pairing-secret";
const DESKTOP: &str = "desktop-capability";
const PHONE: &str = "phone-capability";
const START: i64 = 1_000_000;

fn at(seconds: i64) -> Timestamp {
    Timestamp { seconds: START + seconds, nanos: 0 }
}

fn stamp(event_id: u128) -> EventStamp {
    EventStamp { event_id, occurred_at: at(event_id as i64) }
}

fn bearer(token: &str) -> Vec<u8> {
    format!("Bearer {token}").into_bytes()
}

fn create_request() -> CreateTunnelRequest {
    CreateTunnelRequest {
        application_id: "tests".to_owned(),
        accept: default_accept(),
        max_files: 2,
        max_file_bytes: 100,
        expires_in_seconds: 600,
    }
}

fn file_request(name: &str, size_bytes: u64) -> DeclareFileRequest {
    DeclareFileRequest {
        name: name.to_owned(),
        media_type: "image/png".to_owned(),
        size_bytes,
        last_modified_ms: Some(7),
        sha256: None,
    }
}

fn waiting() -> AppState {
    let mut state = AppState::new("https://portal.example//");
    state
        .create_tunnel_at(create_request(), TUNNEL, SECRET, DESKTOP.to_owned(), at(0))
        .expect("tunnel");
    state
}

fn claim(state: &mut AppState, secret: &str, now: Timestamp) -> Result<TunnelEvent, ApiError> {
    let request = ClaimTunnelRequest {
        pairing_secret: secret.to_owned(),
        device_label: None,
    };
    state
        .claim_tunnel_at(TUNNEL, &request, now, PHONE.to_owned(), stamp(1))
        .map(|(response, event)| {
            assert_eq!(response.phone_capability, PHONE);
            assert_eq!(response.expires_at, at(600));
            event
        })
}

fn paired() -> AppState {
    let mut state = waiting();
    claim(&mut state, SECRET, at(1)).expect("claim");
    state
}

fn declare(
    state: &mut AppState,
    file_id: u128,
    request: DeclareFileRequest,
) -> Result<TunnelEvent, ApiError> {
    let created_at = at(10 + file_id as i64);
    state
        .declare_file_at(
            TUNNEL,
            Some(&bearer(PHONE)),
            request,
            at(2),
            file_id,
            created_at,
            stamp(2),
        )
        .map(|(descriptor, event)| {
            assert_eq!(descriptor.file_id, file_id);
            assert_eq!(descriptor.bytes_transferred, 0);
            assert_eq!(descriptor.status, FileStatus::Declared);
            assert_eq!(descriptor.created_at, created_at);
            event
        })
}

fn send(
    state: &mut AppState,
    file_id: u128,
    range: Option<&str>,
    body: &[u8],
) -> Result<(UploadResponse, Vec<TunnelEvent>), ApiError> {
    let mut pending = state.begin_upload_at(
        TUNNEL,
        file_id,
        Some(&bearer(PHONE)),
        range.map(str::as_bytes),
        at(3),
    )?;
    assert_eq!(pending.tunnel_id(), TUNNEL);
    for piece in body.chunks(2) {
        assert!(pending.may_receive(piece.len()));
        pending.receive(piece)?;
    }
    state.commit_upload_at(&pending, at(4), stamp(3), stamp(4))
}

fn status_of(state: &AppState) -> TunnelStatus {
    state
        .get_tunnel_at(TUNNEL, Some(&bearer(DESKTOP)), at(5))
        .expect("snapshot")
        .status
}

#[test]
fn create_response_keeps_pairing_secret_in_fragment() {
    let mut state = AppState::new("https://upload.file-tunnel.dev");
    let response = state
        .create_tunnel(CreateTunnelRequest {
            application_id: "tests".to_owned(),
            accept: default_accept(),
            max_files: default_max_files(),
            max_file_bytes: default_max_file_bytes(),
            expires_in_seconds: default_expires_seconds(),
        })
        .unwrap();
    assert!(response.pairing_uri.contains("#c="));
    assert!(!response.pairing_uri.contains("?c="));
}

#[test]
fn a_created_tunnel_is_described_in_full() {
    let mut state = AppState::new("https://portal.example//");
    let response = state
        .create_tunnel_at(
            create_request(),
            0x0123_4567_89ab_4def_8123_4567_89ab_cdef,
            SECRET,
            DESKTOP.to_owned(),
            at(0),
        )
        .expect("tunnel");
    assert_eq!(response.api_version, "v1");
    assert_eq!(response.status, TunnelStatus::Waiting);
    assert_eq!(response.desktop_capability, DESKTOP);
    assert_eq!(response.expires_at, at(600));
    assert_eq!(
        response.pairing_uri,
        "https://portal.example/t/01234567-89ab-4def-8123-456789abcdef#c=pairing-secret"
    );
}

#[test]
fn fresh_tunnels_use_fresh_secrets() {
    let mut state = AppState::new("http://127.0.0.1:3000");
    let first = state.create_tunnel(create_request()).expect("tunnel");
    let second = state.create_tunnel(create_request()).expect("tunnel");
    assert_ne!(first.tunnel_id, second.tunnel_id);
    assert_ne!(first.desktop_capability, second.desktop_capability);
    assert_eq!(first.desktop_capability.len(), 64);
    let (link, secret) = first.pairing_uri.split_once("#c=").expect("fragment");
    assert_eq!(
        link,
        format!("http://127.0.0.1:3000/t/{}", uuid::Uuid::from_u128(first.tunnel_id))
    );
    let now = chrono::Utc::now().timestamp();
    assert!((now + 590..=now + 610).contains(&first.expires_at.seconds));

    let request = ClaimTunnelRequest {
        pairing_secret: secret.to_owned(),
        device_label: Some("phone".to_owned()),
    };
    let (claimed, event) = state
        .claim_tunnel(first.tunnel_id, &request)
        .expect("claim");
    assert_eq!(claimed.phone_capability.len(), 64);
    assert_eq!(event.kind, "tunnel.connected");
    assert_eq!(event.sequence, 1);
    assert!(matches!(
        state.claim_tunnel(first.tunnel_id, &request),
        Err(ApiError::Conflict)
    ));
}

#[test]
fn a_whole_transfer_runs_on_the_real_clock() {
    let mut state = AppState::new("http://127.0.0.1:3000");
    let created = state.create_tunnel(create_request()).expect("tunnel");
    let id = created.tunnel_id;
    let desktop = bearer(&created.desktop_capability);
    let (_, secret) = created.pairing_uri.split_once("#c=").expect("fragment");
    let request = ClaimTunnelRequest {
        pairing_secret: secret.to_owned(),
        device_label: None,
    };
    assert!(state.has_event_room(id, 1));
    let (claimed, _) = state.claim_tunnel(id, &request).expect("claim");
    let phone = bearer(&claimed.phone_capability);
    let (file, declared) = state
        .declare_file(id, Some(&phone), file_request("a.png", 6))
        .expect("file");
    assert_eq!(declared.kind, "file.declared");
    let mut pending = state
        .begin_upload(id, file.file_id, Some(&phone), None)
        .expect("upload");
    pending.receive(b"abc").expect("piece");
    pending.receive(b"def").expect("piece");
    let (response, events) = state.commit_upload(&pending).expect("commit");
    assert_eq!(response.status, 204);
    assert_eq!(response.upload_offset, "6");
    assert_eq!(events.len(), 2);
    let probe = state
        .upload_status(id, file.file_id, Some(&phone))
        .expect("probe");
    assert_eq!(probe, response);
    let ticket = state.create_event_ticket(id, Some(&desktop)).expect("ticket");
    assert_eq!(ticket.ticket.len(), 64);
    assert_eq!(state.connect_events(id, &ticket.ticket), Ok(()));
    assert_eq!(
        state.connect_events(id, &ticket.ticket),
        Err(ApiError::Unauthorized)
    );
    let (download, event) = state
        .download_file(id, file.file_id, Some(&desktop))
        .expect("download");
    assert_eq!(download.content, b"abcdef");
    assert_eq!(download.content_type, "image/png");
    assert_eq!(event.sequence, 5);
    assert_eq!(event.bytes_transferred, Some(6));
    assert_eq!(
        state.get_tunnel(id, Some(&desktop)).expect("snapshot").status,
        TunnelStatus::Complete
    );
    assert!(matches!(
        state.cancel_tunnel(id, Some(&desktop)),
        Err(ApiError::Conflict)
    ));
}

#[test]
fn a_tunnel_is_claimed_once_and_with_its_secret() {
    let mut state = waiting();
    assert_eq!(claim(&mut state, "wrong", at(1)).unwrap_err(), ApiError::Unauthorized);
    assert_eq!(status_of(&state), TunnelStatus::Waiting);
    let event = claim(&mut state, SECRET, at(1)).expect("claim");
    assert_eq!(event.kind, "tunnel.connected");
    assert_eq!(event.tunnel_id, TUNNEL);
    assert_eq!(event.event_id, 1);
    assert_eq!(event.occurred_at, at(1));
    assert_eq!(event.sequence, 1);
    assert_eq!(event.file_id, None);
    assert_eq!(event.reason_code, None);
    assert_eq!(status_of(&state), TunnelStatus::Connected);
    assert_eq!(claim(&mut state, SECRET, at(2)).unwrap_err(), ApiError::Conflict);
}

#[test]
fn tunnels_expire_to_the_nanosecond() {
    let mut state = waiting();
    let just_before = Timestamp { seconds: START + 599, nanos: 999_999_999 };
    assert!(state
        .get_tunnel_at(TUNNEL, Some(&bearer(DESKTOP)), just_before)
        .is_ok());
    assert_eq!(
        state
            .get_tunnel_at(TUNNEL, Some(&bearer(DESKTOP)), at(600))
            .unwrap_err(),
        ApiError::Expired
    );
    assert_eq!(claim(&mut state, SECRET, at(600)).unwrap_err(), ApiError::Expired);
    assert_eq!(claim(&mut state, "wrong", at(700)).unwrap_err(), ApiError::Expired);
}

#[test]
fn an_address_grants_nothing() {
    let mut state = paired();
    declare(&mut state, FILE, file_request("a.png", 3)).expect("file");
    let nobody = bearer("nobody");
    for authorization in [Some(nobody.as_slice()), None] {
        assert_eq!(
            state.get_tunnel_at(TUNNEL, authorization, at(2)).unwrap_err(),
            ApiError::Unauthorized
        );
        assert_eq!(
            state
                .cancel_tunnel_at(TUNNEL, authorization, at(2), stamp(9))
                .unwrap_err(),
            ApiError::Unauthorized
        );
        assert_eq!(
            state
                .upload_status_at(TUNNEL, FILE, authorization, at(2))
                .unwrap_err(),
            ApiError::Unauthorized
        );
        assert_eq!(
            state
                .download_file_at(TUNNEL, FILE, authorization, at(2), stamp(9))
                .unwrap_err(),
            ApiError::Unauthorized
        );
        assert_eq!(
            state
                .create_event_ticket_at(TUNNEL, authorization, at(2), "t".to_owned(), at(2))
                .unwrap_err(),
            ApiError::Unauthorized
        );
        assert!(matches!(
            state.begin_upload_at(TUNNEL, FILE, authorization, None, at(2)),
            Err(ApiError::Unauthorized)
        ));
    }
    assert_eq!(
        state
            .get_tunnel_at(OTHER, Some(&bearer(DESKTOP)), at(2))
            .unwrap_err(),
        ApiError::NotFound
    );
}

#[test]
fn capabilities_stay_in_their_scope() {
    let mut state = paired();
    declare(&mut state, FILE, file_request("a.png", 0)).expect("file");
    assert_eq!(
        state
            .cancel_tunnel_at(TUNNEL, Some(&bearer(PHONE)), at(2), stamp(9))
            .unwrap_err(),
        ApiError::Unauthorized
    );
    assert_eq!(
        state
            .download_file_at(TUNNEL, FILE, Some(&bearer(PHONE)), at(2), stamp(9))
            .unwrap_err(),
        ApiError::Unauthorized
    );
    assert_eq!(
        state
            .declare_file_at(
                TUNNEL,
                Some(&bearer(DESKTOP)),
                file_request("b.png", 1),
                at(2),
                2,
                at(2),
                stamp(9)
            )
            .unwrap_err(),
        ApiError::Unauthorized
    );
    assert_eq!(
        state
            .get_tunnel_at(TUNNEL, Some(&bearer(SECRET)), at(2))
            .unwrap_err(),
        ApiError::Unauthorized
    );
    for token in [DESKTOP, PHONE] {
        let snapshot = state
            .get_tunnel_at(TUNNEL, Some(&bearer(token)), at(2))
            .expect("snapshot");
        assert_eq!(snapshot.tunnel_id, TUNNEL);
        assert_eq!(snapshot.files.len(), 1);
    }
}

#[test]
fn declarations_are_held_to_the_terms_of_the_tunnel() {
    let mut state = waiting();
    assert_eq!(
        declare(&mut state, FILE, file_request("a.png", 1)).unwrap_err(),
        ApiError::Unauthorized
    );
    claim(&mut state, SECRET, at(1)).expect("claim");
    assert_eq!(
        declare(&mut state, FILE, file_request("a\tb", 1)).unwrap_err(),
        ApiError::Invalid(InvalidRequest::FileName)
    );
    assert_eq!(
        declare(&mut state, FILE, file_request("a.png", 101)).unwrap_err(),
        ApiError::TooLarge
    );
    let text = DeclareFileRequest {
        media_type: "text/plain".to_owned(),
        ..file_request("a.txt", 1)
    };
    assert_eq!(
        declare(&mut state, FILE, text).unwrap_err(),
        ApiError::UnsupportedMedia
    );
    let digest = DeclareFileRequest {
        sha256: Some("zz".to_owned()),
        ..file_request("a.png", 1)
    };
    assert_eq!(
        declare(&mut state, FILE, digest).unwrap_err(),
        ApiError::Invalid(InvalidRequest::Sha256)
    );
    let good = DeclareFileRequest {
        sha256: Some("ab".repeat(32)),
        ..file_request("a.png", 100)
    };
    let event = declare(&mut state, 1, good).expect("file");
    assert_eq!((event.kind, event.sequence), ("file.declared", 2));
    assert_eq!((event.file_id, event.bytes_transferred), (Some(1), Some(0)));
    declare(&mut state, 2, file_request("b.png", 1)).expect("file");
    assert_eq!(
        declare(&mut state, 3, file_request("c.png", 1)).unwrap_err(),
        ApiError::TooLarge
    );
}

#[test]
fn snapshots_list_the_oldest_file_first() {
    let mut state = paired();
    declare(&mut state, 9, file_request("late.png", 1)).expect("file");
    declare(&mut state, 4, file_request("early.png", 1)).expect("file");
    let snapshot = state
        .get_tunnel_at(TUNNEL, Some(&bearer(PHONE)), at(5))
        .expect("snapshot");
    let names: Vec<&str> = snapshot.files.iter().map(|file| file.name.as_str()).collect();
    assert_eq!(names, ["early.png", "late.png"]);
    assert_eq!(snapshot.expires_at, at(600));
}

#[test]
fn chunks_report_progress_and_availability() {
    let mut state = paired();
    declare(&mut state, FILE, file_request("a.png", 6)).expect("file");
    let (response, events) = send(&mut state, FILE, Some("bytes 0-2/6"), b"abc").expect("chunk");
    assert_eq!((response.status, response.upload_offset.as_str()), (308, "3"));
    assert_eq!(response.upload_complete, "false");
    assert_eq!(events.len(), 1);
    assert_eq!((events[0].kind, events[0].sequence), ("file.progress", 3));
    assert_eq!(events[0].bytes_transferred, Some(3));
    assert_eq!(status_of(&state), TunnelStatus::Transferring);

    // An exact retry tells the same offset and publishes nothing.
    let (retry, silence) = send(&mut state, FILE, Some("bytes 0-2/6"), b"abc").expect("retry");
    assert_eq!(retry, response);
    assert!(silence.is_empty());

    let (response, events) = send(&mut state, FILE, Some("bytes 3-5/6"), b"def").expect("chunk");
    assert_eq!((response.status, response.upload_offset.as_str()), (204, "6"));
    let kinds: Vec<(&str, u64, u128)> =
        events.iter().map(|e| (e.kind, e.sequence, e.event_id)).collect();
    assert_eq!(kinds, [("file.progress", 4, 3), ("file.available", 5, 4)]);
    let probe = state
        .upload_status_at(TUNNEL, FILE, Some(&bearer(PHONE)), at(5))
        .expect("probe");
    assert_eq!(probe, response);
    let snapshot = state
        .get_tunnel_at(TUNNEL, Some(&bearer(PHONE)), at(5))
        .expect("snapshot");
    assert_eq!(snapshot.files[0].status, FileStatus::Available);
    assert_eq!(snapshot.files[0].bytes_transferred, 6);
}

#[test]
fn bodies_must_match_their_range() {
    let mut state = paired();
    declare(&mut state, FILE, file_request("a.png", 6)).expect("file");
    assert_eq!(
        send(&mut state, FILE, Some("bytes 0-2/6"), b"abcd").unwrap_err(),
        ApiError::InvalidRange(RangeProblem::BodyExceeds { limit: 3 })
    );
    assert_eq!(
        send(&mut state, FILE, Some("bytes 0-2/6"), b"a").unwrap_err(),
        ApiError::InvalidRange(RangeProblem::BodyLength { received: 1, required: 3 })
    );
    assert_eq!(
        send(&mut state, FILE, None, b"abc").unwrap_err(),
        ApiError::InvalidRange(RangeProblem::BodyLength { received: 3, required: 6 })
    );
    assert_eq!(
        send(&mut state, FILE, Some("bytes 0-2/7"), b"abc").unwrap_err(),
        ApiError::InvalidRange(RangeProblem::Header(RangeError::TotalMismatch {
            expected: 6,
            actual: 7
        }))
    );
    assert_eq!(
        send(&mut state, FILE, Some("bytes 3-5/6"), b"def").unwrap_err(),
        ApiError::UploadConflict(UploadError::Gap { expected_start: 0, actual_start: 3 })
    );
    assert_eq!(
        send(&mut state, 0xbad, None, b"").unwrap_err(),
        ApiError::NotFound
    );
    send(&mut state, FILE, Some("bytes 0-2/6"), b"abc").expect("chunk");
    assert_eq!(
        send(&mut state, FILE, Some("bytes 0-2/6"), b"xyz").unwrap_err(),
        ApiError::UploadConflict(UploadError::ConflictingReplay { start: 0, end_exclusive: 3 })
    );
    assert_eq!(
        send(&mut state, FILE, Some("bytes 2-4/6"), b"cde").unwrap_err(),
        ApiError::UploadConflict(UploadError::PartialOverlap {
            committed: 3,
            start: 2,
            end_exclusive: 5
        })
    );
    send(&mut state, FILE, Some("bytes 3-5/6"), b"def").expect("chunk");
    let (download, _) = state
        .download_file_at(TUNNEL, FILE, Some(&bearer(DESKTOP)), at(5), stamp(5))
        .expect("download");
    assert_eq!(download.content, b"abcdef");
}

#[test]
fn a_body_may_outlive_its_tunnel() {
    let mut state = paired();
    declare(&mut state, FILE, file_request("a.png", 2)).expect("file");
    let mut pending = state
        .begin_upload_at(TUNNEL, FILE, Some(&bearer(PHONE)), None, at(3))
        .expect("upload");
    pending.receive(b"ab").expect("piece");
    state
        .cancel_tunnel_at(TUNNEL, Some(&bearer(DESKTOP)), at(4), stamp(4))
        .expect("cancel");
    assert_eq!(
        state
            .commit_upload_at(&pending, at(5), stamp(5), stamp(6))
            .unwrap_err(),
        ApiError::Conflict
    );
    assert_eq!(
        state
            .commit_upload_at(&pending, at(600), stamp(5), stamp(6))
            .unwrap_err(),
        ApiError::Expired
    );
}

#[test]
fn files_are_fetched_whole_and_the_last_one_completes() {
    let mut state = paired();
    declare(&mut state, 1, file_request("a.png", 3)).expect("file");
    declare(&mut state, 2, file_request("b.png", 3)).expect("file");
    send(&mut state, 1, None, b"abc").expect("upload");
    let desktop = bearer(DESKTOP);
    assert_eq!(
        state
            .download_file_at(TUNNEL, 2, Some(&desktop), at(5), stamp(5))
            .unwrap_err(),
        ApiError::Conflict
    );
    assert_eq!(
        state
            .download_file_at(TUNNEL, 3, Some(&desktop), at(5), stamp(5))
            .unwrap_err(),
        ApiError::NotFound
    );
    let (download, event) = state
        .download_file_at(TUNNEL, 1, Some(&desktop), at(5), stamp(5))
        .expect("download");
    assert_eq!(download.content, b"abc");
    assert_eq!((event.kind, event.file_id), ("file.downloaded", Some(1)));
    assert_eq!(event.bytes_transferred, Some(3));
    assert_eq!(status_of(&state), TunnelStatus::Transferring);
    // A file may be fetched again while the tunnel is open.
    assert!(state
        .download_file_at(TUNNEL, 1, Some(&desktop), at(5), stamp(5))
        .is_ok());
    state
        .create_event_ticket_at(TUNNEL, Some(&desktop), at(5), "ticket".to_owned(), at(5))
        .expect("ticket");
    send(&mut state, 2, None, b"xyz").expect("upload");
    state
        .download_file_at(TUNNEL, 2, Some(&desktop), at(6), stamp(6))
        .expect("download");
    assert_eq!(status_of(&state), TunnelStatus::Complete);
    assert_eq!(
        state.connect_events_at(TUNNEL, "ticket", at(6), at(6)),
        Err(ApiError::Conflict)
    );
    assert_eq!(
        state
            .download_file_at(TUNNEL, 1, Some(&desktop), at(6), stamp(6))
            .unwrap_err(),
        ApiError::Conflict
    );
    assert_eq!(
        state
            .create_event_ticket_at(TUNNEL, Some(&desktop), at(6), "t".to_owned(), at(6))
            .unwrap_err(),
        ApiError::Conflict
    );
}

#[test]
fn a_media_type_that_no_header_carries_is_replaced() {
    let mut state = paired();
    let odd = DeclareFileRequest {
        media_type: "image/\u{1}".to_owned(),
        ..file_request("a.png", 0)
    };
    declare(&mut state, 1, odd).expect("file");
    let accented = DeclareFileRequest {
        media_type: "image/\u{e9}".to_owned(),
        ..file_request("b.png", 0)
    };
    declare(&mut state, 2, accented).expect("file");
    let types: Vec<String> = [1, 2]
        .into_iter()
        .map(|id| {
            state
                .download_file_at(TUNNEL, id, Some(&bearer(DESKTOP)), at(5), stamp(5))
                .expect("download")
                .0
                .content_type
        })
        .collect();
    assert_eq!(types, ["application/octet-stream", "image/\u{e9}"]);
}

#[test]
fn tickets_live_for_thirty_seconds_and_admit_once() {
    let mut state = waiting();
    let desktop = bearer(DESKTOP);
    for name in ["a", "b", "c"] {
        let response = state
            .create_event_ticket_at(TUNNEL, Some(&desktop), at(10), name.to_owned(), at(10))
            .expect("ticket");
        assert_eq!(response.ticket, name);
        assert_eq!(response.expires_at, at(40));
    }
    let just_before = Timestamp { seconds: START + 39, nanos: 999_999_999 };
    assert_eq!(state.connect_events_at(TUNNEL, "a", at(11), just_before), Ok(()));
    assert_eq!(
        state.connect_events_at(TUNNEL, "a", at(11), at(12)),
        Err(ApiError::Unauthorized)
    );
    assert_eq!(
        state.connect_events_at(TUNNEL, "b", at(11), at(40)),
        Err(ApiError::Unauthorized)
    );
    // The late ticket is used up all the same.
    assert_eq!(
        state.connect_events_at(TUNNEL, "b", at(11), at(12)),
        Err(ApiError::Unauthorized)
    );
    assert_eq!(state.connect_events_at(TUNNEL, "c", at(11), at(12)), Ok(()));
    assert_eq!(
        state.connect_events_at(OTHER, "c", at(11), at(12)),
        Err(ApiError::NotFound)
    );
    assert_eq!(
        state.connect_events_at(TUNNEL, "c", at(600), at(600)),
        Err(ApiError::Expired)
    );
}

#[test]
fn a_ticket_minted_again_starts_anew() {
    let mut state = waiting();
    let desktop = bearer(DESKTOP);
    for seconds in [10, 60] {
        state
            .create_event_ticket_at(
                TUNNEL,
                Some(&desktop),
                at(seconds),
                "same".to_owned(),
                at(seconds),
            )
            .expect("ticket");
    }
    assert_eq!(state.connect_events_at(TUNNEL, "same", at(61), at(89)), Ok(()));
    assert_eq!(
        state.connect_events_at(TUNNEL, "same", at(61), at(62)),
        Err(ApiError::Unauthorized)
    );
}

#[test]
fn cancellation_is_final() {
    let mut state = paired();
    declare(&mut state, FILE, file_request("a.png", 3)).expect("file");
    send(&mut state, FILE, None, b"abc").expect("upload");
    state
        .create_event_ticket_at(TUNNEL, Some(&bearer(PHONE)), at(5), "t".to_owned(), at(5))
        .expect("ticket");
    let event = state
        .cancel_tunnel_at(TUNNEL, Some(&bearer(DESKTOP)), at(6), stamp(6))
        .expect("cancel");
    assert_eq!((event.kind, event.sequence), ("tunnel.cancelled", 5));
    for result in [
        state.get_tunnel_at(TUNNEL, Some(&bearer(DESKTOP)), at(7)).map(|_| ()),
        state
            .download_file_at(TUNNEL, FILE, Some(&bearer(DESKTOP)), at(7), stamp(7))
            .map(|_| ()),
        state
            .cancel_tunnel_at(TUNNEL, Some(&bearer(DESKTOP)), at(7), stamp(7))
            .map(|_| ()),
        state.connect_events_at(TUNNEL, "t", at(7), at(7)),
        declare(&mut state, 2, file_request("b.png", 1)).map(|_| ()),
        claim(&mut state, SECRET, at(7)).map(|_| ()),
    ] {
        assert_eq!(result, Err(ApiError::Conflict));
    }
}

#[test]
fn tunnels_do_not_touch_each_other() {
    let mut state = paired();
    state
        .create_tunnel_at(create_request(), OTHER, "other", "other-desktop".to_owned(), at(0))
        .expect("tunnel");
    state
        .cancel_tunnel_at(OTHER, Some(&bearer("other-desktop")), at(2), stamp(2))
        .expect("cancel");
    assert_eq!(status_of(&state), TunnelStatus::Connected);
    assert_eq!(
        state
            .get_tunnel_at(OTHER, Some(&bearer(DESKTOP)), at(2))
            .unwrap_err(),
        ApiError::Conflict
    );
}

#[test]
fn an_empty_file_is_complete_from_the_start() {
    let mut state = paired();
    declare(&mut state, FILE, file_request("empty.png", 0)).expect("file");
    let probe = state
        .upload_status_at(TUNNEL, FILE, Some(&bearer(PHONE)), at(5))
        .expect("probe");
    assert_eq!((probe.status, probe.upload_offset.as_str()), (204, "0"));
    let (_, events) = send(&mut state, FILE, None, b"").expect("upload");
    assert_eq!(events.len(), 1);
    assert_eq!(events[0].kind, "file.progress");
}

#[test]
fn a_retry_of_an_empty_upload_changes_nothing() {
    let mut state = paired();
    let desktop = bearer(DESKTOP);
    declare(&mut state, 1, file_request("empty.png", 0)).expect("file");
    declare(&mut state, 2, file_request("owed.png", 3)).expect("file");
    let (first, events) = send(&mut state, 1, None, b"").expect("upload");
    assert_eq!((events[0].kind, events[0].sequence), ("file.progress", 4));
    let (retry, silence) = send(&mut state, 1, None, b"").expect("retry");
    assert_eq!(retry, first);
    assert!(silence.is_empty());
    state
        .download_file_at(TUNNEL, 1, Some(&desktop), at(5), stamp(5))
        .expect("download");

    let (retry, silence) = send(&mut state, 1, None, b"").expect("late retry");
    assert_eq!((retry.status, retry.upload_offset.as_str()), (204, "0"));
    assert_eq!(retry.upload_complete, "true");
    assert!(silence.is_empty());
    let snapshot = state
        .get_tunnel_at(TUNNEL, Some(&desktop), at(5))
        .expect("snapshot");
    assert_eq!(snapshot.status, TunnelStatus::Transferring);
    assert_eq!(snapshot.files[0].status, FileStatus::Downloaded);
    assert!(state.has_event_room(TUNNEL, u64::MAX - 5));
    assert!(!state.has_event_room(TUNNEL, u64::MAX - 4));

    send(&mut state, 2, None, b"abc").expect("upload");
    state
        .download_file_at(TUNNEL, 2, Some(&desktop), at(6), stamp(6))
        .expect("download");
    assert_eq!(status_of(&state), TunnelStatus::Complete);
}

#[test]
fn the_first_upload_of_a_fetched_empty_file_is_no_retry() {
    let mut state = paired();
    declare(&mut state, 1, file_request("empty.png", 0)).expect("file");
    declare(&mut state, 2, file_request("owed.png", 3)).expect("file");
    state
        .download_file_at(TUNNEL, 1, Some(&bearer(DESKTOP)), at(5), stamp(5))
        .expect("download");
    assert_eq!(status_of(&state), TunnelStatus::Connected);

    let (response, events) = send(&mut state, 1, None, b"").expect("upload");
    assert_eq!((response.status, response.upload_offset.as_str()), (204, "0"));
    assert_eq!(events.len(), 1);
    assert_eq!((events[0].kind, events[0].sequence), ("file.progress", 5));
    let snapshot = state
        .get_tunnel_at(TUNNEL, Some(&bearer(PHONE)), at(5))
        .expect("snapshot");
    assert_eq!(snapshot.status, TunnelStatus::Transferring);
    assert_eq!(snapshot.files[0].status, FileStatus::Available);

    let (_, silence) = send(&mut state, 1, None, b"").expect("retry");
    assert!(silence.is_empty());
}

#[test]
fn a_late_retry_changes_nothing() {
    let mut state = paired();
    declare(&mut state, 1, file_request("a.png", 4)).expect("file");
    declare(&mut state, 2, file_request("b.png", 1)).expect("file");
    send(&mut state, 1, Some("bytes 0-1/4"), b"ab").expect("chunk");
    send(&mut state, 1, Some("bytes 2-3/4"), b"cd").expect("chunk");
    state
        .download_file_at(TUNNEL, 1, Some(&bearer(DESKTOP)), at(5), stamp(5))
        .expect("download");
    let (retry, silence) = send(&mut state, 1, Some("bytes 0-1/4"), b"ab").expect("retry");
    assert_eq!((retry.status, retry.upload_offset.as_str()), (204, "4"));
    assert!(silence.is_empty());
    let snapshot = state
        .get_tunnel_at(TUNNEL, Some(&bearer(PHONE)), at(5))
        .expect("snapshot");
    assert_eq!(snapshot.files[0].status, FileStatus::Downloaded);
}

#[test]
fn event_numbers_are_bounded() {
    let state = paired();
    assert!(state.has_event_room(TUNNEL, u64::MAX - 1));
    assert!(!state.has_event_room(TUNNEL, u64::MAX));
    assert!(state.has_event_room(OTHER, u64::MAX));
}

#[test]
fn only_digests_are_compared() {
    assert_eq!(token_hash(DESKTOP), token_hash("desktop-capability"));
    assert_ne!(token_hash(DESKTOP), token_hash(PHONE));
}
