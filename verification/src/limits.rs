//! What a new tunnel may ask for.
use std::time::{Duration, SystemTime, SystemTimeError};

use vstd::prelude::*;
use vstd::string::*;

use crate::declaration;
use crate::problem::{ApiError, InvalidRequest};
use crate::CreateTunnelRequest;

verus! {

pub const DEFAULT_MAX_FILES: u16 = 10;

pub const DEFAULT_MAX_FILE_BYTES: u64 = 50 * 1024 * 1024;

pub const DEFAULT_EXPIRES_SECONDS: u32 = 600;

pub const MAX_EXPIRES_SECONDS: u32 = 3600;

/// The largest file that a tunnel may carry.
pub const MAX_FILE_BYTES: u64 = 5 * 1024 * 1024 * 1024;

/// Why a tunnel is not created: the first rule that the request breaks.
pub open spec fn create_refusal(request: CreateTunnelRequest) -> Option<ApiError> {
    if !(1 <= vstd::utf8::encode_utf8(request.application_id@).len() <= 128) {
        Some(ApiError::Invalid(InvalidRequest::ApplicationId))
    } else if !(1 <= request.max_files <= 100) {
        Some(ApiError::Invalid(InvalidRequest::MaxFiles))
    } else if !(1 <= request.max_file_bytes <= MAX_FILE_BYTES) {
        Some(ApiError::Invalid(InvalidRequest::MaxFileBytes))
    } else if !(60 <= request.expires_in_seconds <= MAX_EXPIRES_SECONDS) {
        Some(ApiError::Invalid(InvalidRequest::ExpiresInSeconds))
    } else if !(1 <= request.accept@.len() <= 32) {
        Some(ApiError::Invalid(InvalidRequest::Accept))
    } else {
        None
    }
}

/// Whether a tunnel may be created as asked.
pub fn validate_create(request: &CreateTunnelRequest) -> (result: Result<(), ApiError>)
    ensures
        result == match create_refusal(*request) {
            Some(error) => Err(error),
            None => Ok(()),
        },
{
    let id_size: usize = request.application_id.as_str().as_bytes().len();
    if id_size == 0 || id_size > 128 {
        return Err(ApiError::Invalid(InvalidRequest::ApplicationId));
    }
    if request.max_files == 0 || request.max_files > 100 {
        return Err(ApiError::Invalid(InvalidRequest::MaxFiles));
    }
    if request.max_file_bytes == 0 || request.max_file_bytes > MAX_FILE_BYTES {
        return Err(ApiError::Invalid(InvalidRequest::MaxFileBytes));
    }
    if request.expires_in_seconds < 60 || request.expires_in_seconds > MAX_EXPIRES_SECONDS {
        return Err(ApiError::Invalid(InvalidRequest::ExpiresInSeconds));
    }
    if request.accept.len() == 0 || request.accept.len() > 32 {
        return Err(ApiError::Invalid(InvalidRequest::Accept));
    }
    Ok(())
}

/// Whether `name` may name a file.
pub fn validate_filename(name: &str) -> (result: Result<(), ApiError>)
    ensures
        result == if declaration::is_file_name(name@) {
            Ok(())
        } else {
            Err(ApiError::Invalid(InvalidRequest::FileName))
        },
{
    if declaration::name_is_valid(name) {
        Ok(())
    } else {
        Err(ApiError::Invalid(InvalidRequest::FileName))
    }
}

/// The media patterns of a request that names none.
pub fn default_accept() -> (accept: Vec<String>)
    ensures
        declaration::texts(accept@) == seq!["image/*"@],
{
    let mut accept: Vec<String> = Vec::new();
    accept.push("image/*".to_owned());
    assert(declaration::texts(accept@) =~= seq!["image/*"@]);
    accept
}

/// The file limit of a request that names none.
pub fn default_max_files() -> (count: u16)
    ensures
        count == 10,
{
    DEFAULT_MAX_FILES
}

/// The size limit of a request that names none: 50 MiB.
pub fn default_max_file_bytes() -> (count: u64)
    ensures
        count == 52_428_800,
{
    DEFAULT_MAX_FILE_BYTES
}

/// The lifetime of a tunnel whose request names none: ten minutes.
pub fn default_expires_seconds() -> (count: u32)
    ensures
        count == 600,
{
    DEFAULT_EXPIRES_SECONDS
}

#[verifier::external_type_specification]
#[verifier::external_body]
pub struct ExSystemTime(SystemTime);

#[verifier::external_type_specification]
#[verifier::external_body]
pub struct ExSystemTimeError(SystemTimeError);

/// The span of time that `Duration::from_secs` makes of a number of seconds.
pub uninterp spec fn whole_seconds(count: u64) -> Duration;

/// `Duration::from_secs`: the span of that many whole seconds.
pub assume_specification[ Duration::from_secs ](secs: u64) -> (span: Duration)
    ensures
        span == whole_seconds(secs),
;

/// `SystemTime::now`: the system clock. Nothing is promised of its reading.
#[verifier::external_body]
fn system_time() -> SystemTime {
    SystemTime::now()
}

/// `SystemTime::duration_since` the Unix epoch: fails where the instant lies
/// before it. Which of the two it is, only the clock knows.
#[verifier::external_body]
fn since_epoch(instant: SystemTime) -> Result<Duration, SystemTimeError> {
    instant.duration_since(SystemTime::UNIX_EPOCH)
}

/// The system clock was read, and stood after the Unix epoch or not.
pub closed spec fn is_clock_verdict(after_epoch: bool) -> bool {
    exists|instant: SystemTime, span: Result<Duration, SystemTimeError>|
        call_ensures(system_time, (), instant) && #[trigger] call_ensures(
            since_epoch,
            (instant,),
            span,
        ) && after_epoch == (span is Ok)
}

/// How long a token is worth keeping, where the system clock can be trusted to
/// have been set.
pub fn token_ttl_hint() -> (hint: Duration)
    ensures
        hint == whole_seconds(600) || hint == whole_seconds(0),
        exists|after_epoch: bool| #[trigger]
            is_clock_verdict(after_epoch) && hint == if after_epoch {
                whole_seconds(600)
            } else {
                whole_seconds(0)
            },
{
    let now: SystemTime = system_time();
    let span: Result<Duration, SystemTimeError> = since_epoch(now);
    assert(call_ensures(since_epoch, (now,), span));
    assert(is_clock_verdict(span is Ok));
    ttl_hint(span.is_ok())
}

/// How long a token is worth keeping, given whether the clock stands after the
/// Unix epoch: the default lifetime of a tunnel, or nothing.
pub fn ttl_hint(after_epoch: bool) -> (hint: Duration)
    ensures
        hint == if after_epoch {
            whole_seconds(600)
        } else {
            whole_seconds(0)
        },
{
    if after_epoch {
        Duration::from_secs(DEFAULT_EXPIRES_SECONDS as u64)
    } else {
        Duration::from_secs(0)
    }
}

} // verus!
