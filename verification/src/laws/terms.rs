//! Laws of what tunnels and files may ask for, and of how refusals are worded.
use vstd::prelude::*;

use crate::declaration;
use crate::declaration::{DeclarationPolicy, DeclarationRejection, FileDeclaration};
use crate::laws::vocabulary;
use crate::limits;
use crate::problem;
use crate::problem::{ApiError, InvalidRequest, RangeProblem};
use crate::resumable::{AppendOutcome, RangeError, UploadError};
use crate::text;
use crate::upload;
use crate::upload::UploadResponse;
use crate::{CreateTunnelRequest, DeclareFileRequest};

verus! {

/// The five limits of a request for a tunnel, in the order in which they are
/// checked.
pub open spec fn within_limits(request: CreateTunnelRequest, checks: int) -> bool {
    let id_size = vstd::utf8::encode_utf8(request.application_id@).len();
    &&& checks >= 1 ==> 1 <= id_size && id_size <= 128
    &&& checks >= 2 ==> 1 <= request.max_files && request.max_files <= 100
    &&& checks >= 3 ==> 1 <= request.max_file_bytes && request.max_file_bytes <= 5_368_709_120
    &&& checks >= 4 ==> 60 <= request.expires_in_seconds && request.expires_in_seconds <= 3600
    &&& checks >= 5 ==> 1 <= request.accept@.len() && request.accept@.len() <= 32
}

/// A tunnel may have an application name of 1 to 128 bytes, 1 to 100 files of
/// 1 byte to 5 GiB, a lifetime of 60 to 3600 seconds and 1 to 32 media patterns:
/// every such request is within the rules, no other is, and the first limit that
/// is broken is the one that is named.
pub proof fn law_tunnel_limits(request: CreateTunnelRequest)
    ensures
        limits::create_refusal(request) is None <==> within_limits(request, 5),
        limits::create_refusal(request) == Some(ApiError::Invalid(InvalidRequest::ApplicationId))
            <==> !within_limits(request, 1),
        limits::create_refusal(request) == Some(ApiError::Invalid(InvalidRequest::MaxFiles))
            <==> within_limits(request, 1) && !within_limits(request, 2),
        limits::create_refusal(request) == Some(ApiError::Invalid(InvalidRequest::MaxFileBytes))
            <==> within_limits(request, 2) && !within_limits(request, 3),
        limits::create_refusal(request) == Some(
            ApiError::Invalid(InvalidRequest::ExpiresInSeconds),
        ) <==> within_limits(request, 3) && !within_limits(request, 4),
        limits::create_refusal(request) == Some(ApiError::Invalid(InvalidRequest::Accept))
            <==> within_limits(request, 4) && !within_limits(request, 5),
{
}

/// The text may name a file: 1 to 255 bytes, and no character below the space or
/// from the delete character to the end of the second control block.
pub open spec fn may_name_a_file(name: Seq<char>) -> bool {
    &&& 1 <= vstd::utf8::encode_utf8(name).len()
    &&& vstd::utf8::encode_utf8(name).len() <= 255
    &&& forall|i: int|
        0 <= i < name.len() ==> {
            let code = (#[trigger] name[i]) as u32;
            code >= 32 && (code < 127 || code > 159)
        }
}

/// A file name is judged by its length in bytes and its control characters, and
/// by nothing else.
pub proof fn law_file_names(name: Seq<char>)
    ensures
        declaration::is_file_name(name) <==> may_name_a_file(name),
{
    if declaration::is_file_name(name) {
        assert forall|i: int| 0 <= i < name.len() implies {
            let code = (#[trigger] name[i]) as u32;
            code >= 32 && (code < 127 || code > 159)
        } by {
            assert(!text::is_control(name[i]));
        }
    }
    if may_name_a_file(name) {
        assert forall|i: int| 0 <= i < name.len() implies !text::is_control(#[trigger] name[i]) by {
            let code = name[i] as u32;
            assert(code >= 32 && (code < 127 || code > 159));
        }
    }
}

/// The text is 64 hexadecimal digits of either case.
pub open spec fn is_written_digest(digest: Seq<char>) -> bool {
    let bytes = vstd::utf8::encode_utf8(digest);
    &&& bytes.len() == 64
    &&& forall|i: int|
        0 <= i < 64 ==> {
            let b = #[trigger] bytes[i];
            (48 <= b && b <= 57) || (65 <= b && b <= 70) || (97 <= b && b <= 102)
        }
}

/// A written digest is 64 hexadecimal digits, whatever their case.
pub proof fn law_written_digests(digest: Seq<char>)
    ensures
        declaration::is_digest_text(digest) <==> is_written_digest(digest),
{
    let bytes = vstd::utf8::encode_utf8(digest);
    if declaration::is_digest_text(digest) {
        assert forall|i: int| 0 <= i < 64 implies {
            let b = #[trigger] bytes[i];
            (48 <= b && b <= 57) || (65 <= b && b <= 70) || (97 <= b && b <= 102)
        } by {
            assert(declaration::is_hex_byte(bytes[i]));
        }
    }
}

/// A family pattern `F/*` accepts itself and what begins with `F/`, and nothing
/// else, but for the pattern `*/*`, which accepts everything.
pub proof fn law_family_patterns(family: Seq<char>, media_type: Seq<char>, subtype: Seq<char>)
    ensures
        declaration::accepts(seq![family + "/*"@], media_type) ==> {
            ||| media_type == family + "/*"@
            ||| media_type.len() > family.len() && media_type.subrange(0, family.len() as int)
                == family && media_type[family.len() as int] == '/'
            ||| family == seq!['*']
        },
        declaration::accepts(seq![family + "/*"@], family + seq!['/'] + subtype),
        declaration::accepts(seq![seq!['*', '/', '*']], media_type),
{
    reveal_strlit("/*");
    reveal_strlit("*/*");
    let pattern = family + "/*"@;
    let patterns = seq![pattern];
    assert(pattern.drop_last() =~= family + seq!['/']);
    if declaration::accepts(patterns, media_type) {
        let i = choose|i: int|
            0 <= i < patterns.len() && declaration::pattern_accepts(
                #[trigger] patterns[i],
                media_type,
            );
        assert(patterns[i] == pattern);
        if pattern == "*/*"@ {
            assert(family =~= seq!['*']) by {
                assert(pattern.len() == 3);
                assert(pattern[0] == '*');
            }
        } else if media_type != pattern {
            let stem = pattern.drop_last();
            assert(stem =~= media_type.subrange(0, stem.len() as int));
            assert(media_type.subrange(0, family.len() as int) =~= family) by {
                assert forall|k: int| 0 <= k < family.len() implies media_type[k] == family[k] by {
                    assert(stem[k] == family[k]);
                    assert(media_type.subrange(0, stem.len() as int)[k] == media_type[k]);
                }
            }
            assert(stem[family.len() as int] == '/');
            assert(media_type.subrange(0, stem.len() as int)[family.len() as int]
                == media_type[family.len() as int]);
        }
    }
    let member = family + seq!['/'] + subtype;
    assert(pattern.drop_last() =~= member.subrange(0, family.len() as int + 1));
    assert("/*"@ =~= pattern.subrange(family.len() as int, pattern.len() as int));
    assert(declaration::pattern_accepts(patterns[0], member));
    let everything = seq![seq!['*', '/', '*']];
    assert(everything[0] =~= "*/*"@);
    assert(declaration::pattern_accepts(everything[0], media_type));
}

/// A pattern that does not end in `/*` accepts exactly itself.
pub proof fn law_exact_patterns(pattern: Seq<char>, media_type: Seq<char>)
    requires
        pattern.len() < 2 || pattern[pattern.len() - 2] != '/' || pattern[pattern.len() - 1] != '*',
    ensures
        declaration::accepts(seq![pattern], media_type) <==> media_type == pattern,
{
    reveal_strlit("/*");
    reveal_strlit("*/*");
    let patterns = seq![pattern];
    if pattern == "*/*"@ {
        assert(pattern[1] == '/' && pattern[2] == '*');
    }
    if "/*"@.is_suffix_of(pattern) {
        let tail = pattern.subrange(pattern.len() - 2, pattern.len() as int);
        assert("/*"@ =~= tail);
        assert(tail[0] == pattern[pattern.len() - 2] && tail[1] == pattern[pattern.len() - 1]);
    }
    assert(patterns[0] == pattern);
    if media_type == pattern {
        assert(declaration::pattern_accepts(patterns[0], media_type));
    }
}

/// A list of patterns accepts what one of them accepts, wherever it stands: two
/// lists together accept what either accepts, and the empty list nothing.
pub proof fn law_pattern_lists(
    some: Seq<Seq<char>>,
    more: Seq<Seq<char>>,
    media_type: Seq<char>,
)
    ensures
        declaration::accepts(some + more, media_type) <==> declaration::accepts(some, media_type)
            || declaration::accepts(more, media_type),
        !declaration::accepts(Seq::empty(), media_type),
{
    let all = some + more;
    if declaration::accepts(all, media_type) {
        let i = choose|i: int|
            0 <= i < all.len() && declaration::pattern_accepts(#[trigger] all[i], media_type);
        if i < some.len() {
            assert(all[i] == some[i]);
        } else {
            assert(all[i] == more[i - some.len()]);
        }
    }
    if declaration::accepts(some, media_type) {
        let i = choose|i: int|
            0 <= i < some.len() && declaration::pattern_accepts(#[trigger] some[i], media_type);
        assert(all[i] == some[i]);
    }
    if declaration::accepts(more, media_type) {
        let i = choose|i: int|
            0 <= i < more.len() && declaration::pattern_accepts(#[trigger] more[i], media_type);
        assert(all[i + some.len()] == more[i]);
    }
}

/// `pattern` is the media type, the family that it belongs to, or everything.
pub open spec fn takes(pattern: Seq<char>, media_type: Seq<char>) -> bool {
    ||| pattern == seq!['*', '/', '*']
    ||| pattern == media_type
    ||| {
        let stem = pattern.len() - 1;
        &&& pattern.len() >= 2
        &&& pattern[stem] == '*'
        &&& pattern[stem - 1] == '/'
        &&& media_type.len() >= stem
        &&& forall|k: int| 0 <= k < stem ==> #[trigger] media_type[k] == pattern[k]
    }
}

/// Some pattern of the list is the media type, its family or everything.
pub open spec fn is_welcome(patterns: Seq<Seq<char>>, media_type: Seq<char>) -> bool {
    exists|i: int| 0 <= i < patterns.len() && takes(#[trigger] patterns[i], media_type)
}

/// A media type is accepted exactly where some pattern is it, its family or
/// everything.
pub proof fn law_accepted_media(patterns: Seq<Seq<char>>, media_type: Seq<char>)
    ensures
        declaration::accepts(patterns, media_type) <==> is_welcome(patterns, media_type),
{
    reveal_strlit("/*");
    reveal_strlit("*/*");
    assert("*/*"@ =~= seq!['*', '/', '*']);
    assert forall|i: int| 0 <= i < patterns.len() implies takes(#[trigger] patterns[i], media_type)
        == declaration::pattern_accepts(patterns[i], media_type) by {
        let pattern = patterns[i];
        let stem = pattern.len() - 1;
        if pattern.len() >= 2 {
            let tail = pattern.subrange(pattern.len() - 2, pattern.len() as int);
            assert(tail[0] == pattern[stem - 1] && tail[1] == pattern[stem]);
            assert("/*"@ =~= tail <==> tail[0] == '/' && tail[1] == '*');
            if media_type.len() >= stem {
                let head = media_type.subrange(0, stem);
                if pattern.drop_last().is_prefix_of(media_type) {
                    assert(pattern.drop_last() =~= head);
                    assert forall|k: int| 0 <= k < stem implies #[trigger] media_type[k]
                        == pattern[k] by {
                        assert(head[k] == pattern.drop_last()[k]);
                    }
                }
                if forall|k: int| 0 <= k < stem ==> #[trigger] media_type[k] == pattern[k] {
                    assert(pattern.drop_last() =~= head);
                }
            }
        }
    }
    if declaration::accepts(patterns, media_type) {
        let i = choose|i: int|
            0 <= i < patterns.len() && declaration::pattern_accepts(
                #[trigger] patterns[i],
                media_type,
            );
        assert(takes(patterns[i], media_type));
    }
    if is_welcome(patterns, media_type) {
        let i = choose|i: int| 0 <= i < patterns.len() && takes(#[trigger] patterns[i], media_type);
        assert(declaration::pattern_accepts(patterns[i], media_type));
    }
}

/// A declaration is accepted exactly where its name, the number of files, its
/// size, its media type and its digest all fit; the first that does not is the
/// one that is named.
pub proof fn law_declarations(policy: DeclarationPolicy<'_>, file: FileDeclaration<'_>)
    ensures
        declaration::rejection(policy, file) == if !may_name_a_file(file.name@) {
            Some(DeclarationRejection::InvalidName)
        } else if policy.current_files >= policy.max_files {
            Some(DeclarationRejection::FileLimitReached)
        } else if file.size_bytes > policy.max_file_bytes {
            Some(DeclarationRejection::FileTooLarge)
        } else if !is_welcome(
            Seq::new(policy.accepted_media@.len(), |i: int| policy.accepted_media@[i]@),
            file.media_type@,
        ) {
            Some(DeclarationRejection::UnsupportedMedia)
        } else if file.sha256 is Some && !is_written_digest(file.sha256->0@) {
            Some(DeclarationRejection::InvalidSha256)
        } else {
            None
        },
{
    let patterns = Seq::new(policy.accepted_media@.len(), |i: int| policy.accepted_media@[i]@);
    assert(patterns =~= declaration::texts(policy.accepted_media@));
    law_file_names(file.name@);
    law_accepted_media(patterns, file.media_type@);
    if file.sha256 is Some {
        law_written_digests(file.sha256->0@);
    }
}

/// Every refusal has the HTTP status, the title and the machine-readable name of
/// its kind, whatever it says in detail.
pub proof fn law_problem_documents(error: ApiError)
    ensures
        error is Invalid || error is InvalidRange <==> error.http_status() == 400,
        error is Unauthorized <==> error.http_status() == 401,
        error is NotFound <==> error.http_status() == 404,
        error is UploadConflict || error is Conflict <==> error.http_status() == 409,
        error is Expired <==> error.http_status() == 410,
        error is TooLarge <==> error.http_status() == 413,
        error is UnsupportedMedia <==> error.http_status() == 415,
        error is Invalid || error is InvalidRange ==> error.title_text() == "Invalid request"@
            && error.code_text() == "invalid_request"@,
        error is UploadConflict ==> error.title_text() == "Upload offset conflict"@
            && error.code_text() == "upload_offset_conflict"@,
        error is Unauthorized ==> error.title_text() == "Unauthorized capability"@
            && error.code_text() == "unauthorized"@ && error.message_text()
            == "capability is missing or invalid"@,
        error is NotFound ==> error.title_text() == "Not found"@ && error.code_text()
            == "not_found"@ && error.message_text() == "tunnel or file was not found"@,
        error is Expired ==> error.title_text() == "Tunnel expired"@ && error.code_text()
            == "tunnel_expired"@ && error.message_text() == "tunnel has expired"@,
        error is Conflict ==> error.title_text() == "State conflict"@ && error.code_text()
            == "state_conflict"@ && error.message_text()
            == "resource state conflicts with this operation"@,
        error is TooLarge ==> error.title_text() == "File too large"@ && error.code_text()
            == "file_too_large"@ && error.message_text() == "declared upload is too large"@,
        error is UnsupportedMedia ==> error.title_text() == "Unsupported media type"@
            && error.code_text() == "unsupported_media_type"@ && error.message_text()
            == "media type is not accepted"@,
{
}

/// The detail of a refusal that has one follows its kind.
pub proof fn law_details(rule: InvalidRequest, range: RangeProblem, conflict: UploadError)
    ensures
        ApiError::Invalid(rule).message_text() == "invalid request: "@ + rule.message_text(),
        ApiError::InvalidRange(range).message_text() == "invalid upload range: "@
            + range.message_text(),
        ApiError::UploadConflict(conflict).message_text() == "upload offset conflict: "@
            + conflict.message_text(),
        RangeProblem::Upload(conflict).message_text() == conflict.message_text(),
        rule is ApplicationId ==> rule.message_text() == "application_id must be 1..128 bytes"@,
        rule is MaxFiles ==> rule.message_text() == "max_files must be between 1 and 100"@,
        rule is MaxFileBytes ==> rule.message_text()
            == "max_file_bytes is outside the supported range"@,
        rule is ExpiresInSeconds ==> rule.message_text() == "expires_in_seconds must be 60..3600"@,
        rule is Accept ==> rule.message_text() == "accept must contain 1..32 media patterns"@,
        rule is FileName ==> rule.message_text()
            == "name must be printable and at most 255 bytes"@,
        rule is Sha256 ==> rule.message_text() == "sha256 must be 64 hexadecimal characters"@,
        rule is Body ==> rule.message_text() == "invalid request body"@,
{
}

/// The numbers in a message are those of the refusal, written in decimal digits,
/// each in its place.
pub proof fn law_numbers_in_messages(
    a: u64,
    b: u64,
    c: u64,
    first: Seq<char>,
    second: Seq<char>,
    third: Seq<char>,
)
    requires
        vocabulary::writes(first, a as int),
        vocabulary::writes(second, b as int),
        vocabulary::writes(third, c as int),
    ensures
        (RangeError::TotalMismatch { expected: a, actual: b }).message_text()
            == "Content-Range total "@ + second + " does not match declared size "@ + first,
        (RangeError::OutsideDeclaredSize { end_exclusive: a, total: b }).message_text()
            == "Content-Range ends at "@ + first + ", beyond declared size "@ + second,
        (UploadError::TotalChanged { expected: a, actual: b }).message_text()
            == "upload total changed from "@ + first + " to "@ + second,
        (UploadError::BodyLength { expected: a, actual: b }).message_text()
            == "request body contains "@ + second + " bytes; Content-Range requires "@ + first,
        (UploadError::Gap { expected_start: a, actual_start: b }).message_text()
            == "upload gap: server expects offset "@ + first + ", request begins at "@ + second,
        (UploadError::PartialOverlap { committed: a, start: b, end_exclusive: c }).message_text()
            == "range "@ + second + ".."@ + third + " partially overlaps committed offset "@ + first,
        (UploadError::ConflictingReplay { start: a, end_exclusive: b }).message_text()
            == "replayed range "@ + first + ".."@ + second + " does not match committed bytes"@,
        (RangeProblem::BodyExceeds { limit: a }).message_text()
            == "request body exceeds declared range length "@ + first,
        (RangeProblem::BodyLength { received: a, required: b }).message_text()
            == "request body contains "@ + first + " bytes; range requires "@ + second,
{
    vocabulary::law_numerals(first, a);
    vocabulary::law_numerals(second, b);
    vocabulary::law_numerals(third, c);
}

/// The messages without numbers.
pub proof fn law_fixed_messages(error: RangeError)
    ensures
        error is InvalidUnit ==> error.message_text()
            == "Content-Range must use the `bytes` unit"@,
        error is InvalidSyntax ==> error.message_text()
            == "Content-Range must use `bytes START-END/TOTAL` syntax"@,
        error is InvalidNumber ==> error.message_text()
            == "Content-Range offsets must be unsigned decimal integers"@,
        error is UnsupportedWildcard ==> error.message_text()
            == "Content-Range wildcards and multipart ranges are unsupported"@,
        error is Reversed ==> error.message_text() == "Content-Range end precedes its start"@,
        error is OffsetOverflow ==> error.message_text() == "Content-Range end offset overflowed"@,
        RangeProblem::NotAscii.message_text() == "Content-Range is not ASCII"@,
        RangeProblem::Header(error).message_text() == error.message_text(),
        UploadError::ChunkTooLarge.message_text()
            == "range length cannot be represented by this server"@,
{
}

/// A chunk that does not fit its range, or this machine, is an invalid request;
/// one that does not fit what is committed is a conflict.
pub proof fn law_refused_chunks(error: UploadError)
    ensures
        error is BodyLength || error is ChunkTooLarge ==> problem::upload_refusal(error)
            == ApiError::InvalidRange(RangeProblem::Upload(error)),
        error is TotalChanged || error is Gap || error is PartialOverlap
            || error is ConflictingReplay ==> problem::upload_refusal(error)
            == ApiError::UploadConflict(error),
{
}

/// An answer to an uploader says where to resume: 204 and `true` once the upload
/// is complete, 308 and `false` before, and the offset in decimal digits.
pub proof fn law_resume_checkpoints(response: UploadResponse, outcome: AppendOutcome)
    requires
        upload::reports(response, outcome),
    ensures
        vocabulary::writes(response.upload_offset@, outcome.offset as int),
        outcome.complete ==> response.status == 204 && response.upload_complete@ == "true"@,
        !outcome.complete ==> response.status == 308 && response.upload_complete@ == "false"@,
{
    vocabulary::law_numerals(response.upload_offset@, outcome.offset);
}

/// The digest of a declaration, where it has one, is well written.
pub open spec fn digest_fits(request: DeclareFileRequest) -> bool {
    request.sha256 is Some ==> is_written_digest(request.sha256->0@)
}

} // verus!
