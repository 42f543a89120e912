use ftnl_backend_api::declaration::{
    digest_is_valid, media_is_accepted, validate_declaration, DeclarationPolicy,
    DeclarationRejection, FileDeclaration,
};
use ftnl_backend_api::limits::{
    default_accept, default_expires_seconds, default_max_file_bytes, default_max_files,
    token_ttl_hint, ttl_hint, validate_create, validate_filename,
};
use ftnl_backend_api::problem::{ApiError, InvalidRequest};
use ftnl_backend_api::CreateTunnelRequest;

fn policy<'a>(accepted_media: &'a [String]) -> DeclarationPolicy<'a> {
    DeclarationPolicy {
        current_files: 0,
        max_files: 2,
        max_file_bytes: 1024,
        accepted_media,
    }
}

fn declaration<'a>(name: &'a str, media_type: &'a str) -> FileDeclaration<'a> {
    FileDeclaration {
        name,
        media_type,
        size_bytes: 512,
        sha256: None,
    }
}

#[test]
fn accepts_exact_wildcard_and_global_media_policies() {
    for (patterns, media_type) in [
        (vec!["application/pdf".to_owned()], "application/pdf"),
        (vec!["image/*".to_owned()], "image/jpeg"),
        (vec!["*/*".to_owned()], "text/plain"),
    ] {
        assert_eq!(
            validate_declaration(policy(&patterns), declaration("file.bin", media_type)),
            Ok(())
        );
    }
}

#[test]
fn returns_one_typed_rejection_for_each_policy_boundary() {
    let image_only = vec!["image/*".to_owned()];
    let valid = declaration("photo.jpg", "image/jpeg");
    let cases = [
        (
            policy(&image_only),
            declaration("bad\nname", "image/jpeg"),
            DeclarationRejection::InvalidName,
        ),
        (
            DeclarationPolicy {
                current_files: 2,
                ..policy(&image_only)
            },
            valid,
            DeclarationRejection::FileLimitReached,
        ),
        (
            policy(&image_only),
            FileDeclaration {
                size_bytes: 1025,
                ..valid
            },
            DeclarationRejection::FileTooLarge,
        ),
        (
            policy(&image_only),
            declaration("notes.txt", "text/plain"),
            DeclarationRejection::UnsupportedMedia,
        ),
        (
            policy(&image_only),
            FileDeclaration {
                sha256: Some("not-a-sha256"),
                ..valid
            },
            DeclarationRejection::InvalidSha256,
        ),
    ];

    for (policy, declaration, expected) in cases {
        assert_eq!(validate_declaration(policy, declaration), Err(expected));
    }
}

#[test]
fn the_first_broken_rule_decides() {
    let image_only = vec!["image/*".to_owned()];
    let everything_wrong = FileDeclaration {
        name: "",
        media_type: "text/plain",
        size_bytes: 4096,
        sha256: Some("short"),
    };
    let full = DeclarationPolicy {
        current_files: 2,
        ..policy(&image_only)
    };
    assert_eq!(
        validate_declaration(full, everything_wrong),
        Err(DeclarationRejection::InvalidName)
    );
    let named = FileDeclaration {
        name: "a",
        ..everything_wrong
    };
    assert_eq!(
        validate_declaration(full, named),
        Err(DeclarationRejection::FileLimitReached)
    );
    assert_eq!(
        validate_declaration(policy(&image_only), named),
        Err(DeclarationRejection::FileTooLarge)
    );
}

#[test]
fn sizes_at_the_limit_are_accepted() {
    let image_only = vec!["image/*".to_owned()];
    let exact = FileDeclaration {
        size_bytes: 1024,
        ..declaration("photo.jpg", "image/jpeg")
    };
    assert_eq!(validate_declaration(policy(&image_only), exact), Ok(()));
    let empty = FileDeclaration {
        size_bytes: 0,
        ..exact
    };
    assert_eq!(validate_declaration(policy(&image_only), empty), Ok(()));
}

#[test]
fn digests_are_sixty_four_hexadecimal_digits() {
    assert!(digest_is_valid(&"0123456789abcdefABCDEF0123456789".repeat(2)));
    assert!(!digest_is_valid(&"0".repeat(63)));
    assert!(!digest_is_valid(&"0".repeat(65)));
    assert!(!digest_is_valid(&"g".repeat(64)));
    // 64 bytes, but of 32 characters.
    assert!(!digest_is_valid(&"\u{e9}".repeat(32)));
}

#[test]
fn media_patterns_are_explicit() {
    let patterns = vec!["image/*".to_owned(), "application/pdf".to_owned()];
    assert!(media_is_accepted(&patterns, "image/jpeg"));
    assert!(media_is_accepted(&patterns, "application/pdf"));
    assert!(!media_is_accepted(&patterns, "text/html"));
}

#[test]
fn a_family_pattern_needs_the_slash() {
    let patterns = vec!["image/*".to_owned()];
    assert!(!media_is_accepted(&patterns, "image"));
    assert!(!media_is_accepted(&patterns, "images/png"));
    assert!(media_is_accepted(&patterns, "image/"));
    assert!(media_is_accepted(&vec!["/*".to_owned()], "/x"));
    assert!(!media_is_accepted(&[], "image/png"));
}

#[test]
fn filenames_cannot_hide_control_characters() {
    assert!(validate_filename("IMG_0001.jpg").is_ok());
    assert!(validate_filename("../IMG_0001.jpg").is_ok());
    assert!(validate_filename("bad\nname.jpg").is_err());
}

#[test]
fn filenames_are_measured_in_bytes() {
    assert!(validate_filename(&"x".repeat(255)).is_ok());
    assert_eq!(
        validate_filename(&"x".repeat(256)),
        Err(ApiError::Invalid(InvalidRequest::FileName))
    );
    assert!(validate_filename(&"\u{e9}".repeat(127)).is_ok());
    assert!(validate_filename(&"\u{e9}".repeat(128)).is_err());
    assert!(validate_filename("").is_err());
    assert!(validate_filename("nul\0").is_err());
    assert!(validate_filename("c1\u{85}").is_err());
    assert!(validate_filename("del\u{7f}").is_err());
    assert!(validate_filename("\u{a0}").is_ok());
}

fn request() -> CreateTunnelRequest {
    CreateTunnelRequest {
        application_id: "demo".to_owned(),
        accept: default_accept(),
        max_files: default_max_files(),
        max_file_bytes: default_max_file_bytes(),
        expires_in_seconds: default_expires_seconds(),
    }
}

#[test]
fn defaults_make_a_valid_request() {
    assert_eq!(default_accept(), vec!["image/*".to_owned()]);
    assert_eq!(default_max_files(), 10);
    assert_eq!(default_max_file_bytes(), 52_428_800);
    assert_eq!(default_expires_seconds(), 600);
    assert_eq!(validate_create(&request()), Ok(()));
}

#[test]
fn every_limit_of_a_new_tunnel_is_checked() {
    let refused = |request: CreateTunnelRequest| validate_create(&request).unwrap_err();
    for application_id in ["".to_owned(), "x".repeat(129)] {
        assert_eq!(
            refused(CreateTunnelRequest { application_id, ..request() }),
            ApiError::Invalid(InvalidRequest::ApplicationId)
        );
    }
    for max_files in [0, 101] {
        assert_eq!(
            refused(CreateTunnelRequest { max_files, ..request() }),
            ApiError::Invalid(InvalidRequest::MaxFiles)
        );
    }
    for max_file_bytes in [0, 5 * 1024 * 1024 * 1024 + 1] {
        assert_eq!(
            refused(CreateTunnelRequest { max_file_bytes, ..request() }),
            ApiError::Invalid(InvalidRequest::MaxFileBytes)
        );
    }
    for expires_in_seconds in [59, 3601] {
        assert_eq!(
            refused(CreateTunnelRequest { expires_in_seconds, ..request() }),
            ApiError::Invalid(InvalidRequest::ExpiresInSeconds)
        );
    }
    for accept in [vec![], vec!["image/*".to_owned(); 33]] {
        assert_eq!(
            refused(CreateTunnelRequest { accept, ..request() }),
            ApiError::Invalid(InvalidRequest::Accept)
        );
    }
    assert!(validate_create(&CreateTunnelRequest {
        application_id: "x".repeat(128),
        accept: vec!["image/*".to_owned(); 32],
        max_files: 100,
        max_file_bytes: 5 * 1024 * 1024 * 1024,
        expires_in_seconds: 3600,
    })
    .is_ok());
}

#[test]
fn the_hint_is_the_default_lifetime() {
    assert_eq!(token_ttl_hint(), std::time::Duration::from_secs(600));
    assert_eq!(ttl_hint(true), std::time::Duration::from_secs(600));
    assert_eq!(ttl_hint(false), std::time::Duration::default());
}
