//! Persisted records: accounts, pairs, file entries and the instance
//! configuration, plus the acknowledgement of a webhook subscription.

use vstd::prelude::*;

use crate::protocol::enums::{AccountKind, FileKind, FileSyncState, LogLevel, PairStatus};
use crate::protocol::file_side::FileSide;
use crate::protocol::id::{AccountId, FileOpId, PairId};
use crate::protocol::path::{AbsPath, RelPath};
use crate::protocol::primitives::{DeltaCursor, DriveId, DriveItemId, KeychainRef, Timestamp};

verus! {

/// A signed-in Microsoft account.
pub struct Account {
    pub id: AccountId,
    pub kind: AccountKind,
    pub upn: String,
    pub tenant_id: String,
    pub drive_id: DriveId,
    pub display_name: String,
    pub keychain_ref: KeychainRef,
    pub scopes: Vec<String>,
    pub created_at: Timestamp,
    pub updated_at: Timestamp,
}

/// A local folder paired with a remote folder.
pub struct Pair {
    pub id: PairId,
    pub account_id: AccountId,
    pub local_path: AbsPath,
    pub remote_item_id: DriveItemId,
    pub remote_path: String,
    pub display_name: String,
    pub status: PairStatus,
    pub paused: bool,
    pub delta_token: Option<DeltaCursor>,
    pub errored_reason: Option<String>,
    pub created_at: Timestamp,
    pub updated_at: Timestamp,
    pub last_sync_at: Option<Timestamp>,
    pub conflict_count: u32,
    pub webhook_enabled: bool,
}

/// Daemon-wide configuration.
pub struct InstanceConfig {
    pub log_level: LogLevel,
    pub notify: bool,
    pub allow_metered: bool,
    pub min_free_gib: u32,
    pub updated_at: Timestamp,
    pub azure_ad_client_id: String,
    pub webhook_listener_port: Option<u16>,
    pub webhook_notification_url: Option<String>,
}

/// The tracked state of one path of a pair.
pub struct FileEntry {
    pub pair_id: PairId,
    pub relative_path: RelPath,
    pub kind: FileKind,
    pub sync_state: FileSyncState,
    pub local: Option<FileSide>,
    pub remote: Option<FileSide>,
    pub synced: Option<FileSide>,
    pub pending_op_id: Option<FileOpId>,
    pub updated_at: Timestamp,
}

/// Acknowledgement of a webhook subscription.
#[derive(Clone, Debug, PartialEq, Eq)]
pub struct SubscriptionAck {
    pub subscription_id: String,
}

} // verus!
