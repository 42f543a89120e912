//! File Tunnel: an ephemeral bridge between a desktop upload field and files
//! that live on a phone.
//!
//! The library holds the capability and lifecycle rules, the declaration
//! policy, the resumable upload state and the tunnels themselves. Transport,
//! locks and event delivery surround it.

pub mod capability;
pub mod declaration;
pub mod header;
pub mod laws;
pub mod limits;
pub mod problem;
pub mod protocol;
pub mod resumable;
pub mod state;
pub mod text;
pub mod time;
pub mod tunnel;
pub mod upload;

pub use limits::token_ttl_hint;
pub use state::AppState;

use time::Timestamp;
use vstd::prelude::*;

verus! {

/// Where a tunnel stands in its life.
#[derive(Debug, Clone, Copy, PartialEq, Eq, Structural)]
pub enum TunnelStatus {
    Waiting,
    Connected,
    Transferring,
    Complete,
    Cancelled,
    Expired,
}

/// Where a declared file stands.
#[derive(Debug, Clone, Copy, PartialEq, Eq, Structural)]
pub enum FileStatus {
    Declared,
    Uploading,
    Available,
    Downloaded,
    Rejected,
    Cancelled,
}

#[derive(Debug)]
pub struct CreateTunnelRequest {
    pub application_id: String,
    pub accept: Vec<String>,
    pub max_files: u16,
    pub max_file_bytes: u64,
    pub expires_in_seconds: u32,
}

#[derive(Debug)]
pub struct CreateTunnelResponse {
    pub api_version: &'static str,
    pub tunnel_id: u128,
    pub status: TunnelStatus,
    pub pairing_uri: String,
    pub desktop_capability: String,
    pub expires_at: Timestamp,
}

#[derive(Debug)]
pub struct ClaimTunnelRequest {
    pub pairing_secret: String,
    pub device_label: Option<String>,
}

#[derive(Debug)]
pub struct ClaimTunnelResponse {
    pub phone_capability: String,
    pub expires_at: Timestamp,
}

#[derive(Debug)]
pub struct DeclareFileRequest {
    pub name: String,
    pub media_type: String,
    pub size_bytes: u64,
    pub last_modified_ms: Option<u64>,
    pub sha256: Option<String>,
}

/// What the parties see of a file.
#[derive(Debug, PartialEq, Eq)]
pub struct FileDescriptor {
    pub file_id: u128,
    pub name: String,
    pub media_type: String,
    pub size_bytes: u64,
    pub bytes_transferred: u64,
    pub status: FileStatus,
    pub created_at: Timestamp,
}

impl Clone for FileDescriptor {
    fn clone(&self) -> (copy: Self)
        ensures
            copy == *self,
    {
        FileDescriptor {
            file_id: self.file_id,
            name: self.name.clone(),
            media_type: self.media_type.clone(),
            size_bytes: self.size_bytes,
            bytes_transferred: self.bytes_transferred,
            status: self.status,
            created_at: self.created_at,
        }
    }
}

#[derive(Debug)]
pub struct TunnelSnapshot {
    pub tunnel_id: u128,
    pub status: TunnelStatus,
    pub expires_at: Timestamp,
    pub files: Vec<FileDescriptor>,
}

/// What subscribers are told of a tunnel.
#[derive(Debug, Clone, Copy, PartialEq, Eq)]
pub struct TunnelEvent {
    pub event_id: u128,
    pub sequence: u64,
    pub occurred_at: Timestamp,
    pub tunnel_id: u128,
    pub kind: &'static str,
    pub file_id: Option<u128>,
    pub bytes_transferred: Option<u64>,
    pub reason_code: Option<&'static str>,
}

#[derive(Debug)]
pub struct EventTicketResponse {
    pub ticket: String,
    pub expires_at: Timestamp,
}

} // verus!
