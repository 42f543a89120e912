//! Pure file-declaration policy.
//!
//! HTTP extraction, capability checks, clocks, identifiers, storage, and event
//! publication happen elsewhere. This module receives an immutable policy
//! snapshot and command, then returns a typed decision.
use vstd::prelude::*;
use vstd::string::*;

use crate::text;

verus! {

/// Immutable limits visible to one declaration decision.
#[derive(Debug, Clone, Copy)]
pub struct DeclarationPolicy<'a> {
    pub current_files: usize,
    pub max_files: u16,
    pub max_file_bytes: u64,
    pub accepted_media: &'a [String],
}

/// Borrowed, side-effect-free declaration input.
#[derive(Debug, Clone, Copy)]
pub struct FileDeclaration<'a> {
    pub name: &'a str,
    pub media_type: &'a str,
    pub size_bytes: u64,
    pub sha256: Option<&'a str>,
}

/// Exhaustive reasons a declaration cannot enter the data plane.
#[derive(Debug, Clone, Copy, Eq, PartialEq, Structural)]
pub enum DeclarationRejection {
    InvalidName,
    FileLimitReached,
    FileTooLarge,
    UnsupportedMedia,
    InvalidSha256,
}

/// A file name: 1 to 255 bytes of UTF-8 and no control character.
pub open spec fn is_file_name(name: Seq<char>) -> bool {
    &&& 1 <= vstd::utf8::encode_utf8(name).len() <= 255
    &&& forall|i: int| 0 <= i < name.len() ==> !text::is_control(#[trigger] name[i])
}

/// `pattern` names every media type, this one, or all of its family.
pub open spec fn pattern_accepts(pattern: Seq<char>, media_type: Seq<char>) -> bool {
    ||| pattern == "*/*"@
    ||| pattern == media_type
    ||| "/*"@.is_suffix_of(pattern) && pattern.drop_last().is_prefix_of(media_type)
}

/// Some pattern accepts the media type.
pub open spec fn accepts(patterns: Seq<Seq<char>>, media_type: Seq<char>) -> bool {
    exists|i: int| 0 <= i < patterns.len() && pattern_accepts(#[trigger] patterns[i], media_type)
}

/// The texts of a list of strings.
pub open spec fn texts(list: Seq<String>) -> Seq<Seq<char>> {
    list.map_values(|item: String| item@)
}

/// A hexadecimal digit of either case.
pub open spec fn is_hex_byte(b: u8) -> bool {
    48 <= b <= 57 || 65 <= b <= 70 || 97 <= b <= 102
}

/// A SHA-256 digest in writing: 64 hexadecimal digits.
pub open spec fn is_digest_text(digest: Seq<char>) -> bool {
    let bytes = vstd::utf8::encode_utf8(digest);
    &&& bytes.len() == 64
    &&& forall|i: int| 0 <= i < bytes.len() ==> is_hex_byte(#[trigger] bytes[i])
}

/// A digest that is given is well written.
pub open spec fn digest_fits(digest: Option<&str>) -> bool {
    digest matches Some(digest) ==> is_digest_text(digest@)
}

/// Why a declaration is rejected: the first rule that it breaks.
pub open spec fn rejection(
    policy: DeclarationPolicy<'_>,
    declaration: FileDeclaration<'_>,
) -> Option<DeclarationRejection> {
    if !is_file_name(declaration.name@) {
        Some(DeclarationRejection::InvalidName)
    } else if policy.current_files >= policy.max_files {
        Some(DeclarationRejection::FileLimitReached)
    } else if declaration.size_bytes > policy.max_file_bytes {
        Some(DeclarationRejection::FileTooLarge)
    } else if !accepts(texts(policy.accepted_media@), declaration.media_type@) {
        Some(DeclarationRejection::UnsupportedMedia)
    } else if !digest_fits(declaration.sha256) {
        Some(DeclarationRejection::InvalidSha256)
    } else {
        None
    }
}

/// Whether `name` may name a file.
pub fn name_is_valid(name: &str) -> (answer: bool)
    ensures
        answer == is_file_name(name@),
{
    let size: usize = name.as_bytes().len();
    if size == 0 || size > 255 {
        return false;
    }
    let chars: Vec<char> = text::chars_of(name);
    let mut i: usize = 0;
    while i < chars.len()
        invariant
            i <= chars@.len(),
            chars@ == name@,
            forall|j: int| 0 <= j < i ==> !text::is_control(#[trigger] name@[j]),
        decreases chars@.len() - i,
    {
        if text::char_is_control(chars[i]) {
            assert(text::is_control(name@[i as int]));
            return false;
        }
        i = i + 1;
    }
    true
}

/// Whether `digest` is a SHA-256 digest in writing.
pub fn digest_is_valid(digest: &str) -> (answer: bool)
    ensures
        answer == is_digest_text(digest@),
{
    let bytes: &[u8] = digest.as_bytes();
    if bytes.len() != 64 {
        return false;
    }
    let mut i: usize = 0;
    while i < bytes.len()
        invariant
            i <= bytes@.len(),
            bytes@ == vstd::utf8::encode_utf8(digest@),
            forall|j: int| 0 <= j < i ==> is_hex_byte(#[trigger] bytes@[j]),
        decreases bytes@.len() - i,
    {
        let b: u8 = bytes[i];
        if !((48 <= b && b <= 57) || (65 <= b && b <= 70) || (97 <= b && b <= 102)) {
            assert(!is_hex_byte(bytes@[i as int]));
            return false;
        }
        i = i + 1;
    }
    true
}

/// Decide whether a file declaration satisfies the supplied policy snapshot.
///
/// No input is mutated and no observable effect occurs. Callers can therefore
/// exercise this decision independently from the web server and map its typed
/// rejection into their transport-specific error contract.
pub fn validate_declaration(
    policy: DeclarationPolicy<'_>,
    declaration: FileDeclaration<'_>,
) -> (result: Result<(), DeclarationRejection>)
    ensures
        result == match rejection(policy, declaration) {
            Some(reason) => Err(reason),
            None => Ok(()),
        },
{
    if !name_is_valid(declaration.name) {
        return Err(DeclarationRejection::InvalidName);
    }
    if policy.current_files >= policy.max_files as usize {
        return Err(DeclarationRejection::FileLimitReached);
    }
    if declaration.size_bytes > policy.max_file_bytes {
        return Err(DeclarationRejection::FileTooLarge);
    }
    if !media_is_accepted(policy.accepted_media, declaration.media_type) {
        return Err(DeclarationRejection::UnsupportedMedia);
    }
    if let Some(digest) = declaration.sha256 {
        if !digest_is_valid(digest) {
            return Err(DeclarationRejection::InvalidSha256);
        }
    }
    Ok(())
}

/// Whether some pattern accepts the media type.
pub fn media_is_accepted(patterns: &[String], media_type: &str) -> (answer: bool)
    ensures
        answer == accepts(texts(patterns@), media_type@),
{
    let media: Vec<char> = text::chars_of(media_type);
    let mut i: usize = 0;
    while i < patterns.len()
        invariant
            i <= patterns@.len(),
            media@ == media_type@,
            forall|j: int|
                0 <= j < i ==> !pattern_accepts(#[trigger] texts(patterns@)[j], media_type@),
        decreases patterns@.len() - i,
    {
        let pattern: Vec<char> = text::chars_of(patterns[i].as_str());
        assert(texts(patterns@)[i as int] == pattern@);
        if pattern_matches(pattern.as_slice(), media.as_slice()) {
            return true;
        }
        i = i + 1;
    }
    false
}

/// Whether `pattern` accepts the media type.
fn pattern_matches(pattern: &[char], media_type: &[char]) -> (answer: bool)
    ensures
        answer == pattern_accepts(pattern@, media_type@),
{
    let everything: Vec<char> = text::chars_of("*/*");
    if text::same_chars(pattern, everything.as_slice()) || text::same_chars(pattern, media_type) {
        return true;
    }
    proof {
        reveal_strlit("/*");
        assert(pattern@.len() >= 2 ==> ("/*"@.is_suffix_of(pattern@) <==> pattern@[pattern@.len()
            - 2] == '/' && pattern@[pattern@.len() - 1] == '*')) by {
            if pattern@.len() >= 2 {
                let tail = pattern@.subrange(pattern@.len() - 2, pattern@.len() as int);
                assert(tail[0] == pattern@[pattern@.len() - 2]);
                assert(tail[1] == pattern@[pattern@.len() - 1]);
                assert("/*"@ =~= tail <==> tail[0] == '/' && tail[1] == '*');
            }
        }
    }
    if pattern.len() >= 2 && pattern[pattern.len() - 2] == '/' && pattern[pattern.len() - 1] == '*' {
        let family: &[char] = vstd::slice::slice_subrange(pattern, 0, pattern.len() - 1);
        assert(family@ =~= pattern@.drop_last());
        text::starts_with_chars(media_type, family)
    } else {
        false
    }
}

} // verus!
