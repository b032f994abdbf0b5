//! String-valued enums shared across the protocol, with their snake_case wire names.

use vstd::prelude::*;

use crate::text::str_equal;

verus! {

/// Whether an entry is a regular file or a directory.
#[derive(Clone, Copy, Debug, PartialEq, Eq, Structural, Hash)]
pub enum FileKind {
    File,
    Directory,
}

impl FileKind {
    /// The snake_case name used on the wire.
    pub open spec fn wire_spec(self) -> Seq<char> {
        match self {
            FileKind::File => "file"@,
            FileKind::Directory => "directory"@,
        }
    }

    /// The variant a wire name denotes, if any.
    pub open spec fn from_wire_spec(s: Seq<char>) -> Option<Self> {
        if s == "file"@ {
            Some(FileKind::File)
        } else if s == "directory"@ {
            Some(FileKind::Directory)
        } else {
            None
        }
    }

    /// The snake_case name used on the wire.
    pub fn as_wire_str(&self) -> (r: &'static str)
        ensures
            r@ == self.wire_spec(),
    {
        match self {
            FileKind::File => "file",
            FileKind::Directory => "directory",
        }
    }

    /// Parses a wire name.
    pub fn from_wire(s: &str) -> (r: Option<Self>)
        ensures
            r == Self::from_wire_spec(s@),
    {
        if str_equal(s, "file") {
            Some(FileKind::File)
        } else if str_equal(s, "directory") {
            Some(FileKind::Directory)
        } else {
            None
        }
    }

    /// Every variant reads back from its wire name.
    pub proof fn lemma_wire_round_trip(self)
        ensures
            Self::from_wire_spec(self.wire_spec()) == Some(self),
    {
        reveal_strlit("file");
        reveal_strlit("directory");
        match self {
            FileKind::File => {
            },
            FileKind::Directory => {
                assert("directory"@.len() != "file"@.len());
            },
        }
    }
}

/// Whether an account is personal or business.
#[derive(Clone, Copy, Debug, PartialEq, Eq, Structural, Hash)]
pub enum AccountKind {
    Personal,
    Business,
}

impl AccountKind {
    /// The snake_case name used on the wire.
    pub open spec fn wire_spec(self) -> Seq<char> {
        match self {
            AccountKind::Personal => "personal"@,
            AccountKind::Business => "business"@,
        }
    }

    /// The variant a wire name denotes, if any.
    pub open spec fn from_wire_spec(s: Seq<char>) -> Option<Self> {
        if s == "personal"@ {
            Some(AccountKind::Personal)
        } else if s == "business"@ {
            Some(AccountKind::Business)
        } else {
            None
        }
    }

    /// The snake_case name used on the wire.
    pub fn as_wire_str(&self) -> (r: &'static str)
        ensures
            r@ == self.wire_spec(),
    {
        match self {
            AccountKind::Personal => "personal",
            AccountKind::Business => "business",
        }
    }

    /// Parses a wire name.
    pub fn from_wire(s: &str) -> (r: Option<Self>)
        ensures
            r == Self::from_wire_spec(s@),
    {
        if str_equal(s, "personal") {
            Some(AccountKind::Personal)
        } else if str_equal(s, "business") {
            Some(AccountKind::Business)
        } else {
            None
        }
    }

    /// Every variant reads back from its wire name.
    pub proof fn lemma_wire_round_trip(self)
        ensures
            Self::from_wire_spec(self.wire_spec()) == Some(self),
    {
        reveal_strlit("personal");
        reveal_strlit("business");
        match self {
            AccountKind::Personal => {
            },
            AccountKind::Business => {
                assert("business"@[0] != "personal"@[0]);
            },
        }
    }
}

/// Lifecycle state of a sync pair.
#[derive(Clone, Copy, Debug, PartialEq, Eq, Structural, Hash)]
pub enum PairStatus {
    Initializing,
    Active,
    Paused,
    Errored,
    Removed,
}

impl PairStatus {
    /// The snake_case name used on the wire.
    pub open spec fn wire_spec(self) -> Seq<char> {
        match self {
            PairStatus::Initializing => "initializing"@,
            PairStatus::Active => "active"@,
            PairStatus::Paused => "paused"@,
            PairStatus::Errored => "errored"@,
            PairStatus::Removed => "removed"@,
        }
    }

    /// The variant a wire name denotes, if any.
    pub open spec fn from_wire_spec(s: Seq<char>) -> Option<Self> {
        if s == "initializing"@ {
            Some(PairStatus::Initializing)
        } else if s == "active"@ {
            Some(PairStatus::Active)
        } else if s == "paused"@ {
            Some(PairStatus::Paused)
        } else if s == "errored"@ {
            Some(PairStatus::Errored)
        } else if s == "removed"@ {
            Some(PairStatus::Removed)
        } else {
            None
        }
    }

    /// The snake_case name used on the wire.
    pub fn as_wire_str(&self) -> (r: &'static str)
        ensures
            r@ == self.wire_spec(),
    {
        match self {
            PairStatus::Initializing => "initializing",
            PairStatus::Active => "active",
            PairStatus::Paused => "paused",
            PairStatus::Errored => "errored",
            PairStatus::Removed => "removed",
        }
    }

    /// Parses a wire name.
    pub fn from_wire(s: &str) -> (r: Option<Self>)
        ensures
            r == Self::from_wire_spec(s@),
    {
        if str_equal(s, "initializing") {
            Some(PairStatus::Initializing)
        } else if str_equal(s, "active") {
            Some(PairStatus::Active)
        } else if str_equal(s, "paused") {
            Some(PairStatus::Paused)
        } else if str_equal(s, "errored") {
            Some(PairStatus::Errored)
        } else if str_equal(s, "removed") {
            Some(PairStatus::Removed)
        } else {
            None
        }
    }

    /// Every variant reads back from its wire name.
    pub proof fn lemma_wire_round_trip(self)
        ensures
            Self::from_wire_spec(self.wire_spec()) == Some(self),
    {
        reveal_strlit("initializing");
        reveal_strlit("active");
        reveal_strlit("paused");
        reveal_strlit("errored");
        reveal_strlit("removed");
        match self {
            PairStatus::Initializing => {
            },
            PairStatus::Active => {
                assert("active"@.len() != "initializing"@.len());
            },
            PairStatus::Paused => {
                assert("paused"@.len() != "initializing"@.len());
                assert("paused"@[0] != "active"@[0]);
            },
            PairStatus::Errored => {
                assert("errored"@.len() != "initializing"@.len());
                assert("errored"@.len() != "active"@.len());
                assert("errored"@.len() != "paused"@.len());
            },
            PairStatus::Removed => {
                assert("removed"@.len() != "initializing"@.len());
                assert("removed"@.len() != "active"@.len());
                assert("removed"@.len() != "paused"@.len());
                assert("removed"@[0] != "errored"@[0]);
            },
        }
    }
}

/// Sync state of an individual file.
#[derive(Clone, Copy, Debug, PartialEq, Eq, Structural, Hash)]
pub enum FileSyncState {
    Clean,
    Dirty,
    PendingUpload,
    PendingDownload,
    PendingConflict,
    InFlight,
}

impl FileSyncState {
    /// The snake_case name used on the wire.
    pub open spec fn wire_spec(self) -> Seq<char> {
        match self {
            FileSyncState::Clean => "clean"@,
            FileSyncState::Dirty => "dirty"@,
            FileSyncState::PendingUpload => "pending_upload"@,
            FileSyncState::PendingDownload => "pending_download"@,
            FileSyncState::PendingConflict => "pending_conflict"@,
            FileSyncState::InFlight => "in_flight"@,
        }
    }

    /// The variant a wire name denotes, if any.
    pub open spec fn from_wire_spec(s: Seq<char>) -> Option<Self> {
        if s == "clean"@ {
            Some(FileSyncState::Clean)
        } else if s == "dirty"@ {
            Some(FileSyncState::Dirty)
        } else if s == "pending_upload"@ {
            Some(FileSyncState::PendingUpload)
        } else if s == "pending_download"@ {
            Some(FileSyncState::PendingDownload)
        } else if s == "pending_conflict"@ {
            Some(FileSyncState::PendingConflict)
        } else if s == "in_flight"@ {
            Some(FileSyncState::InFlight)
        } else {
            None
        }
    }

    /// The snake_case name used on the wire.
    pub fn as_wire_str(&self) -> (r: &'static str)
        ensures
            r@ == self.wire_spec(),
    {
        match self {
            FileSyncState::Clean => "clean",
            FileSyncState::Dirty => "dirty",
            FileSyncState::PendingUpload => "pending_upload",
            FileSyncState::PendingDownload => "pending_download",
            FileSyncState::PendingConflict => "pending_conflict",
            FileSyncState::InFlight => "in_flight",
        }
    }

    /// Parses a wire name.
    pub fn from_wire(s: &str) -> (r: Option<Self>)
        ensures
            r == Self::from_wire_spec(s@),
    {
        if str_equal(s, "clean") {
            Some(FileSyncState::Clean)
        } else if str_equal(s, "dirty") {
            Some(FileSyncState::Dirty)
        } else if str_equal(s, "pending_upload") {
            Some(FileSyncState::PendingUpload)
        } else if str_equal(s, "pending_download") {
            Some(FileSyncState::PendingDownload)
        } else if str_equal(s, "pending_conflict") {
            Some(FileSyncState::PendingConflict)
        } else if str_equal(s, "in_flight") {
            Some(FileSyncState::InFlight)
        } else {
            None
        }
    }

    /// Every variant reads back from its wire name.
    pub proof fn lemma_wire_round_trip(self)
        ensures
            Self::from_wire_spec(self.wire_spec()) == Some(self),
    {
        reveal_strlit("clean");
        reveal_strlit("dirty");
        reveal_strlit("pending_upload");
        reveal_strlit("pending_download");
        reveal_strlit("pending_conflict");
        reveal_strlit("in_flight");
        match self {
            FileSyncState::Clean => {
            },
            FileSyncState::Dirty => {
                assert("dirty"@[0] != "clean"@[0]);
            },
            FileSyncState::PendingUpload => {
                assert("pending_upload"@.len() != "clean"@.len());
                assert("pending_upload"@.len() != "dirty"@.len());
            },
            FileSyncState::PendingDownload => {
                assert("pending_download"@.len() != "clean"@.len());
                assert("pending_download"@.len() != "dirty"@.len());
                assert("pending_download"@.len() != "pending_upload"@.len());
            },
            FileSyncState::PendingConflict => {
                assert("pending_conflict"@.len() != "clean"@.len());
                assert("pending_conflict"@.len() != "dirty"@.len());
                assert("pending_conflict"@.len() != "pending_upload"@.len());
                assert("pending_conflict"@[8] != "pending_download"@[8]);
            },
            FileSyncState::InFlight => {
                assert("in_flight"@.len() != "clean"@.len());
                assert("in_flight"@.len() != "dirty"@.len());
                assert("in_flight"@.len() != "pending_upload"@.len());
                assert("in_flight"@.len() != "pending_download"@.len());
                assert("in_flight"@.len() != "pending_conflict"@.len());
            },
        }
    }
}

/// Kind of file operation being performed.
#[derive(Clone, Copy, Debug, PartialEq, Eq, Structural, Hash)]
pub enum FileOpKind {
    Upload,
    Download,
    LocalDelete,
    RemoteDelete,
    LocalMkdir,
    RemoteMkdir,
    LocalRename,
    RemoteRename,
}

impl FileOpKind {
    /// The snake_case name used on the wire.
    pub open spec fn wire_spec(self) -> Seq<char> {
        match self {
            FileOpKind::Upload => "upload"@,
            FileOpKind::Download => "download"@,
            FileOpKind::LocalDelete => "local_delete"@,
            FileOpKind::RemoteDelete => "remote_delete"@,
            FileOpKind::LocalMkdir => "local_mkdir"@,
            FileOpKind::RemoteMkdir => "remote_mkdir"@,
            FileOpKind::LocalRename => "local_rename"@,
            FileOpKind::RemoteRename => "remote_rename"@,
        }
    }

    /// The variant a wire name denotes, if any.
    pub open spec fn from_wire_spec(s: Seq<char>) -> Option<Self> {
        if s == "upload"@ {
            Some(FileOpKind::Upload)
        } else if s == "download"@ {
            Some(FileOpKind::Download)
        } else if s == "local_delete"@ {
            Some(FileOpKind::LocalDelete)
        } else if s == "remote_delete"@ {
            Some(FileOpKind::RemoteDelete)
        } else if s == "local_mkdir"@ {
            Some(FileOpKind::LocalMkdir)
        } else if s == "remote_mkdir"@ {
            Some(FileOpKind::RemoteMkdir)
        } else if s == "local_rename"@ {
            Some(FileOpKind::LocalRename)
        } else if s == "remote_rename"@ {
            Some(FileOpKind::RemoteRename)
        } else {
            None
        }
    }

    /// The snake_case name used on the wire.
    pub fn as_wire_str(&self) -> (r: &'static str)
        ensures
            r@ == self.wire_spec(),
    {
        match self {
            FileOpKind::Upload => "upload",
            FileOpKind::Download => "download",
            FileOpKind::LocalDelete => "local_delete",
            FileOpKind::RemoteDelete => "remote_delete",
            FileOpKind::LocalMkdir => "local_mkdir",
            FileOpKind::RemoteMkdir => "remote_mkdir",
            FileOpKind::LocalRename => "local_rename",
            FileOpKind::RemoteRename => "remote_rename",
        }
    }

    /// Parses a wire name.
    pub fn from_wire(s: &str) -> (r: Option<Self>)
        ensures
            r == Self::from_wire_spec(s@),
    {
        if str_equal(s, "upload") {
            Some(FileOpKind::Upload)
        } else if str_equal(s, "download") {
            Some(FileOpKind::Download)
        } else if str_equal(s, "local_delete") {
            Some(FileOpKind::LocalDelete)
        } else if str_equal(s, "remote_delete") {
            Some(FileOpKind::RemoteDelete)
        } else if str_equal(s, "local_mkdir") {
            Some(FileOpKind::LocalMkdir)
        } else if str_equal(s, "remote_mkdir") {
            Some(FileOpKind::RemoteMkdir)
        } else if str_equal(s, "local_rename") {
            Some(FileOpKind::LocalRename)
        } else if str_equal(s, "remote_rename") {
            Some(FileOpKind::RemoteRename)
        } else {
            None
        }
    }

    /// Every variant reads back from its wire name.
    pub proof fn lemma_wire_round_trip(self)
        ensures
            Self::from_wire_spec(self.wire_spec()) == Some(self),
    {
        reveal_strlit("upload");
        reveal_strlit("download");
        reveal_strlit("local_delete");
        reveal_strlit("remote_delete");
        reveal_strlit("local_mkdir");
        reveal_strlit("remote_mkdir");
        reveal_strlit("local_rename");
        reveal_strlit("remote_rename");
        match self {
            FileOpKind::Upload => {
            },
            FileOpKind::Download => {
                assert("download"@.len() != "upload"@.len());
            },
            FileOpKind::LocalDelete => {
                assert("local_delete"@.len() != "upload"@.len());
                assert("local_delete"@.len() != "download"@.len());
            },
            FileOpKind::RemoteDelete => {
                assert("remote_delete"@.len() != "upload"@.len());
                assert("remote_delete"@.len() != "download"@.len());
                assert("remote_delete"@.len() != "local_delete"@.len());
            },
            FileOpKind::LocalMkdir => {
                assert("local_mkdir"@.len() != "upload"@.len());
                assert("local_mkdir"@.len() != "download"@.len());
                assert("local_mkdir"@.len() != "local_delete"@.len());
                assert("local_mkdir"@.len() != "remote_delete"@.len());
            },
            FileOpKind::RemoteMkdir => {
                assert("remote_mkdir"@.len() != "upload"@.len());
                assert("remote_mkdir"@.len() != "download"@.len());
                assert("remote_mkdir"@[0] != "local_delete"@[0]);
                assert("remote_mkdir"@.len() != "remote_delete"@.len());
                assert("remote_mkdir"@.len() != "local_mkdir"@.len());
            },
            FileOpKind::LocalRename => {
                assert("local_rename"@.len() != "upload"@.len());
                assert("local_rename"@.len() != "download"@.len());
                assert("local_rename"@[6] != "local_delete"@[6]);
                assert("local_rename"@.len() != "remote_delete"@.len());
                assert("local_rename"@.len() != "local_mkdir"@.len());
                assert("local_rename"@[0] != "remote_mkdir"@[0]);
            },
            FileOpKind::RemoteRename => {
                assert("remote_rename"@.len() != "upload"@.len());
                assert("remote_rename"@.len() != "download"@.len());
                assert("remote_rename"@.len() != "local_delete"@.len());
                assert("remote_rename"@[7] != "remote_delete"@[7]);
                assert("remote_rename"@.len() != "local_mkdir"@.len());
                assert("remote_rename"@.len() != "remote_mkdir"@.len());
                assert("remote_rename"@.len() != "local_rename"@.len());
            },
        }
    }
}

/// Execution status of a file operation.
#[derive(Clone, Copy, Debug, PartialEq, Eq, Structural, Hash)]
pub enum FileOpStatus {
    Enqueued,
    InProgress,
    Backoff,
    Success,
    Failed,
}

impl FileOpStatus {
    /// The snake_case name used on the wire.
    pub open spec fn wire_spec(self) -> Seq<char> {
        match self {
            FileOpStatus::Enqueued => "enqueued"@,
            FileOpStatus::InProgress => "in_progress"@,
            FileOpStatus::Backoff => "backoff"@,
            FileOpStatus::Success => "success"@,
            FileOpStatus::Failed => "failed"@,
        }
    }

    /// The variant a wire name denotes, if any.
    pub open spec fn from_wire_spec(s: Seq<char>) -> Option<Self> {
        if s == "enqueued"@ {
            Some(FileOpStatus::Enqueued)
        } else if s == "in_progress"@ {
            Some(FileOpStatus::InProgress)
        } else if s == "backoff"@ {
            Some(FileOpStatus::Backoff)
        } else if s == "success"@ {
            Some(FileOpStatus::Success)
        } else if s == "failed"@ {
            Some(FileOpStatus::Failed)
        } else {
            None
        }
    }

    /// The snake_case name used on the wire.
    pub fn as_wire_str(&self) -> (r: &'static str)
        ensures
            r@ == self.wire_spec(),
    {
        match self {
            FileOpStatus::Enqueued => "enqueued",
            FileOpStatus::InProgress => "in_progress",
            FileOpStatus::Backoff => "backoff",
            FileOpStatus::Success => "success",
            FileOpStatus::Failed => "failed",
        }
    }

    /// Parses a wire name.
    pub fn from_wire(s: &str) -> (r: Option<Self>)
        ensures
            r == Self::from_wire_spec(s@),
    {
        if str_equal(s, "enqueued") {
            Some(FileOpStatus::Enqueued)
        } else if str_equal(s, "in_progress") {
            Some(FileOpStatus::InProgress)
        } else if str_equal(s, "backoff") {
            Some(FileOpStatus::Backoff)
        } else if str_equal(s, "success") {
            Some(FileOpStatus::Success)
        } else if str_equal(s, "failed") {
            Some(FileOpStatus::Failed)
        } else {
            None
        }
    }

    /// Every variant reads back from its wire name.
    pub proof fn lemma_wire_round_trip(self)
        ensures
            Self::from_wire_spec(self.wire_spec()) == Some(self),
    {
        reveal_strlit("enqueued");
        reveal_strlit("in_progress");
        reveal_strlit("backoff");
        reveal_strlit("success");
        reveal_strlit("failed");
        match self {
            FileOpStatus::Enqueued => {
            },
            FileOpStatus::InProgress => {
                assert("in_progress"@.len() != "enqueued"@.len());
            },
            FileOpStatus::Backoff => {
                assert("backoff"@.len() != "enqueued"@.len());
                assert("backoff"@.len() != "in_progress"@.len());
            },
            FileOpStatus::Success => {
                assert("success"@.len() != "enqueued"@.len());
                assert("success"@.len() != "in_progress"@.len());
                assert("success"@[0] != "backoff"@[0]);
            },
            FileOpStatus::Failed => {
                assert("failed"@.len() != "enqueued"@.len());
                assert("failed"@.len() != "in_progress"@.len());
                assert("failed"@.len() != "backoff"@.len());
                assert("failed"@.len() != "success"@.len());
            },
        }
    }
}

/// What triggered a sync run.
#[derive(Clone, Copy, Debug, PartialEq, Eq, Structural, Hash)]
pub enum RunTrigger {
    Scheduled,
    LocalEvent,
    RemoteWebhook,
    CliForce,
    BackoffRetry,
}

impl RunTrigger {
    /// The snake_case name used on the wire.
    pub open spec fn wire_spec(self) -> Seq<char> {
        match self {
            RunTrigger::Scheduled => "scheduled"@,
            RunTrigger::LocalEvent => "local_event"@,
            RunTrigger::RemoteWebhook => "remote_webhook"@,
            RunTrigger::CliForce => "cli_force"@,
            RunTrigger::BackoffRetry => "backoff_retry"@,
        }
    }

    /// The variant a wire name denotes, if any.
    pub open spec fn from_wire_spec(s: Seq<char>) -> Option<Self> {
        if s == "scheduled"@ {
            Some(RunTrigger::Scheduled)
        } else if s == "local_event"@ {
            Some(RunTrigger::LocalEvent)
        } else if s == "remote_webhook"@ {
            Some(RunTrigger::RemoteWebhook)
        } else if s == "cli_force"@ {
            Some(RunTrigger::CliForce)
        } else if s == "backoff_retry"@ {
            Some(RunTrigger::BackoffRetry)
        } else {
            None
        }
    }

    /// The snake_case name used on the wire.
    pub fn as_wire_str(&self) -> (r: &'static str)
        ensures
            r@ == self.wire_spec(),
    {
        match self {
            RunTrigger::Scheduled => "scheduled",
            RunTrigger::LocalEvent => "local_event",
            RunTrigger::RemoteWebhook => "remote_webhook",
            RunTrigger::CliForce => "cli_force",
            RunTrigger::BackoffRetry => "backoff_retry",
        }
    }

    /// Parses a wire name.
    pub fn from_wire(s: &str) -> (r: Option<Self>)
        ensures
            r == Self::from_wire_spec(s@),
    {
        if str_equal(s, "scheduled") {
            Some(RunTrigger::Scheduled)
        } else if str_equal(s, "local_event") {
            Some(RunTrigger::LocalEvent)
        } else if str_equal(s, "remote_webhook") {
            Some(RunTrigger::RemoteWebhook)
        } else if str_equal(s, "cli_force") {
            Some(RunTrigger::CliForce)
        } else if str_equal(s, "backoff_retry") {
            Some(RunTrigger::BackoffRetry)
        } else {
            None
        }
    }

    /// Every variant reads back from its wire name.
    pub proof fn lemma_wire_round_trip(self)
        ensures
            Self::from_wire_spec(self.wire_spec()) == Some(self),
    {
        reveal_strlit("scheduled");
        reveal_strlit("local_event");
        reveal_strlit("remote_webhook");
        reveal_strlit("cli_force");
        reveal_strlit("backoff_retry");
        match self {
            RunTrigger::Scheduled => {
            },
            RunTrigger::LocalEvent => {
                assert("local_event"@.len() != "scheduled"@.len());
            },
            RunTrigger::RemoteWebhook => {
                assert("remote_webhook"@.len() != "scheduled"@.len());
                assert("remote_webhook"@.len() != "local_event"@.len());
            },
            RunTrigger::CliForce => {
                assert("cli_force"@[0] != "scheduled"@[0]);
                assert("cli_force"@.len() != "local_event"@.len());
                assert("cli_force"@.len() != "remote_webhook"@.len());
            },
            RunTrigger::BackoffRetry => {
                assert("backoff_retry"@.len() != "scheduled"@.len());
                assert("backoff_retry"@.len() != "local_event"@.len());
                assert("backoff_retry"@.len() != "remote_webhook"@.len());
                assert("backoff_retry"@.len() != "cli_force"@.len());
            },
        }
    }
}

/// Overall outcome of a sync run.
#[derive(Clone, Copy, Debug, PartialEq, Eq, Structural, Hash)]
pub enum RunOutcome {
    Success,
    PartialFailure,
    Aborted,
}

impl RunOutcome {
    /// The snake_case name used on the wire.
    pub open spec fn wire_spec(self) -> Seq<char> {
        match self {
            RunOutcome::Success => "success"@,
            RunOutcome::PartialFailure => "partial_failure"@,
            RunOutcome::Aborted => "aborted"@,
        }
    }

    /// The variant a wire name denotes, if any.
    pub open spec fn from_wire_spec(s: Seq<char>) -> Option<Self> {
        if s == "success"@ {
            Some(RunOutcome::Success)
        } else if s == "partial_failure"@ {
            Some(RunOutcome::PartialFailure)
        } else if s == "aborted"@ {
            Some(RunOutcome::Aborted)
        } else {
            None
        }
    }

    /// The snake_case name used on the wire.
    pub fn as_wire_str(&self) -> (r: &'static str)
        ensures
            r@ == self.wire_spec(),
    {
        match self {
            RunOutcome::Success => "success",
            RunOutcome::PartialFailure => "partial_failure",
            RunOutcome::Aborted => "aborted",
        }
    }

    /// Parses a wire name.
    pub fn from_wire(s: &str) -> (r: Option<Self>)
        ensures
            r == Self::from_wire_spec(s@),
    {
        if str_equal(s, "success") {
            Some(RunOutcome::Success)
        } else if str_equal(s, "partial_failure") {
            Some(RunOutcome::PartialFailure)
        } else if str_equal(s, "aborted") {
            Some(RunOutcome::Aborted)
        } else {
            None
        }
    }

    /// Every variant reads back from its wire name.
    pub proof fn lemma_wire_round_trip(self)
        ensures
            Self::from_wire_spec(self.wire_spec()) == Some(self),
    {
        reveal_strlit("success");
        reveal_strlit("partial_failure");
        reveal_strlit("aborted");
        match self {
            RunOutcome::Success => {
            },
            RunOutcome::PartialFailure => {
                assert("partial_failure"@.len() != "success"@.len());
            },
            RunOutcome::Aborted => {
                assert("aborted"@[0] != "success"@[0]);
                assert("aborted"@.len() != "partial_failure"@.len());
            },
        }
    }
}

/// Which side of a conflict is being referenced.
#[derive(Clone, Copy, Debug, PartialEq, Eq, Structural, Hash)]
pub enum ConflictSide {
    Local,
    Remote,
}

impl ConflictSide {
    /// The snake_case name used on the wire.
    pub open spec fn wire_spec(self) -> Seq<char> {
        match self {
            ConflictSide::Local => "local"@,
            ConflictSide::Remote => "remote"@,
        }
    }

    /// The variant a wire name denotes, if any.
    pub open spec fn from_wire_spec(s: Seq<char>) -> Option<Self> {
        if s == "local"@ {
            Some(ConflictSide::Local)
        } else if s == "remote"@ {
            Some(ConflictSide::Remote)
        } else {
            None
        }
    }

    /// The snake_case name used on the wire.
    pub fn as_wire_str(&self) -> (r: &'static str)
        ensures
            r@ == self.wire_spec(),
    {
        match self {
            ConflictSide::Local => "local",
            ConflictSide::Remote => "remote",
        }
    }

    /// Parses a wire name.
    pub fn from_wire(s: &str) -> (r: Option<Self>)
        ensures
            r == Self::from_wire_spec(s@),
    {
        if str_equal(s, "local") {
            Some(ConflictSide::Local)
        } else if str_equal(s, "remote") {
            Some(ConflictSide::Remote)
        } else {
            None
        }
    }

    /// Every variant reads back from its wire name.
    pub proof fn lemma_wire_round_trip(self)
        ensures
            Self::from_wire_spec(self.wire_spec()) == Some(self),
    {
        reveal_strlit("local");
        reveal_strlit("remote");
        match self {
            ConflictSide::Local => {
            },
            ConflictSide::Remote => {
                assert("remote"@.len() != "local"@.len());
            },
        }
    }
}

/// How a conflict was resolved.
#[derive(Clone, Copy, Debug, PartialEq, Eq, Structural, Hash)]
pub enum ConflictResolution {
    Auto,
    Manual,
}

impl ConflictResolution {
    /// The snake_case name used on the wire.
    pub open spec fn wire_spec(self) -> Seq<char> {
        match self {
            ConflictResolution::Auto => "auto"@,
            ConflictResolution::Manual => "manual"@,
        }
    }

    /// The variant a wire name denotes, if any.
    pub open spec fn from_wire_spec(s: Seq<char>) -> Option<Self> {
        if s == "auto"@ {
            Some(ConflictResolution::Auto)
        } else if s == "manual"@ {
            Some(ConflictResolution::Manual)
        } else {
            None
        }
    }

    /// The snake_case name used on the wire.
    pub fn as_wire_str(&self) -> (r: &'static str)
        ensures
            r@ == self.wire_spec(),
    {
        match self {
            ConflictResolution::Auto => "auto",
            ConflictResolution::Manual => "manual",
        }
    }

    /// Parses a wire name.
    pub fn from_wire(s: &str) -> (r: Option<Self>)
        ensures
            r == Self::from_wire_spec(s@),
    {
        if str_equal(s, "auto") {
            Some(ConflictResolution::Auto)
        } else if str_equal(s, "manual") {
            Some(ConflictResolution::Manual)
        } else {
            None
        }
    }

    /// Every variant reads back from its wire name.
    pub proof fn lemma_wire_round_trip(self)
        ensures
            Self::from_wire_spec(self.wire_spec()) == Some(self),
    {
        reveal_strlit("auto");
        reveal_strlit("manual");
        match self {
            ConflictResolution::Auto => {
            },
            ConflictResolution::Manual => {
                assert("manual"@.len() != "auto"@.len());
            },
        }
    }
}

/// Severity level for audit log entries.
#[derive(Clone, Copy, Debug, PartialEq, Eq, Structural, Hash)]
pub enum AuditLevel {
    Info,
    Warn,
    Error,
}

impl AuditLevel {
    /// The snake_case name used on the wire.
    pub open spec fn wire_spec(self) -> Seq<char> {
        match self {
            AuditLevel::Info => "info"@,
            AuditLevel::Warn => "warn"@,
            AuditLevel::Error => "error"@,
        }
    }

    /// The variant a wire name denotes, if any.
    pub open spec fn from_wire_spec(s: Seq<char>) -> Option<Self> {
        if s == "info"@ {
            Some(AuditLevel::Info)
        } else if s == "warn"@ {
            Some(AuditLevel::Warn)
        } else if s == "error"@ {
            Some(AuditLevel::Error)
        } else {
            None
        }
    }

    /// The snake_case name used on the wire.
    pub fn as_wire_str(&self) -> (r: &'static str)
        ensures
            r@ == self.wire_spec(),
    {
        match self {
            AuditLevel::Info => "info",
            AuditLevel::Warn => "warn",
            AuditLevel::Error => "error",
        }
    }

    /// Parses a wire name.
    pub fn from_wire(s: &str) -> (r: Option<Self>)
        ensures
            r == Self::from_wire_spec(s@),
    {
        if str_equal(s, "info") {
            Some(AuditLevel::Info)
        } else if str_equal(s, "warn") {
            Some(AuditLevel::Warn)
        } else if str_equal(s, "error") {
            Some(AuditLevel::Error)
        } else {
            None
        }
    }

    /// Every variant reads back from its wire name.
    pub proof fn lemma_wire_round_trip(self)
        ensures
            Self::from_wire_spec(self.wire_spec()) == Some(self),
    {
        reveal_strlit("info");
        reveal_strlit("warn");
        reveal_strlit("error");
        match self {
            AuditLevel::Info => {
            },
            AuditLevel::Warn => {
                assert("warn"@[0] != "info"@[0]);
            },
            AuditLevel::Error => {
                assert("error"@.len() != "info"@.len());
                assert("error"@.len() != "warn"@.len());
            },
        }
    }
}

/// Verbosity level for log messages.
#[derive(Clone, Copy, Debug, PartialEq, Eq, Structural, Hash)]
pub enum LogLevel {
    Info,
    Debug,
    Trace,
}

impl LogLevel {
    /// The snake_case name used on the wire.
    pub open spec fn wire_spec(self) -> Seq<char> {
        match self {
            LogLevel::Info => "info"@,
            LogLevel::Debug => "debug"@,
            LogLevel::Trace => "trace"@,
        }
    }

    /// The variant a wire name denotes, if any.
    pub open spec fn from_wire_spec(s: Seq<char>) -> Option<Self> {
        if s == "info"@ {
            Some(LogLevel::Info)
        } else if s == "debug"@ {
            Some(LogLevel::Debug)
        } else if s == "trace"@ {
            Some(LogLevel::Trace)
        } else {
            None
        }
    }

    /// The snake_case name used on the wire.
    pub fn as_wire_str(&self) -> (r: &'static str)
        ensures
            r@ == self.wire_spec(),
    {
        match self {
            LogLevel::Info => "info",
            LogLevel::Debug => "debug",
            LogLevel::Trace => "trace",
        }
    }

    /// Parses a wire name.
    pub fn from_wire(s: &str) -> (r: Option<Self>)
        ensures
            r == Self::from_wire_spec(s@),
    {
        if str_equal(s, "info") {
            Some(LogLevel::Info)
        } else if str_equal(s, "debug") {
            Some(LogLevel::Debug)
        } else if str_equal(s, "trace") {
            Some(LogLevel::Trace)
        } else {
            None
        }
    }

    /// Every variant reads back from its wire name.
    pub proof fn lemma_wire_round_trip(self)
        ensures
            Self::from_wire_spec(self.wire_spec()) == Some(self),
    {
        reveal_strlit("info");
        reveal_strlit("debug");
        reveal_strlit("trace");
        match self {
            LogLevel::Info => {
            },
            LogLevel::Debug => {
                assert("debug"@.len() != "info"@.len());
            },
            LogLevel::Trace => {
                assert("trace"@.len() != "info"@.len());
                assert("trace"@[0] != "debug"@[0]);
            },
        }
    }
}

} // verus!
