//! The events the server records: what happened, when, in which
//! repository and for which user.

use vstd::prelude::*;

verus! {

/// One recorded event. Timestamps are milliseconds since the Unix epoch,
/// in UTC.
#[allow(inconsistent_fields)]
#[derive(Debug)]
pub enum ObservabilityEvent {
    /// `request.completed`
    RequestCompleted {
        timestamp: i64,
        repo: String,
        method: String,
        git_service: String,
        request_bytes: usize,
        response_bytes: usize,
        user: Option<String>,
        duration_ms: u64,
    },
    /// `push.received`
    PushReceived {
        timestamp: i64,
        user: String,
        repo: String,
        payload_bytes: usize,
        ref_count: usize,
    },
    /// `push.branch_created`
    PushBranchCreated {
        timestamp: i64,
        user: String,
        repo: String,
        branch: String,
    },
    /// `push.branch_updated`
    PushBranchUpdated {
        timestamp: i64,
        user: String,
        repo: String,
        branch: String,
    },
    /// `push.branch_deleted`
    PushBranchDeleted {
        timestamp: i64,
        user: String,
        repo: String,
        branch: String,
    },
    /// `push.rejected`
    PushRejected {
        timestamp: i64,
        user: Option<String>,
        repo: String,
        branch: Option<String>,
        reason: String,
    },
    /// `shelve.started`
    ShelveStarted {
        timestamp: i64,
        user: String,
        repo: String,
        branch: String,
        is_async: bool,
    },
    /// `shelve.completed`
    ShelveCompleted {
        timestamp: i64,
        user: String,
        repo: String,
        branch: String,
        changelist: usize,
        client_name: String,
        duration_ms: u64,
        file_count: usize,
        is_async: bool,
        commits_in_branch: usize,
    },
    /// `shelve.reshelved`
    ShelveReshelved {
        timestamp: i64,
        user: String,
        repo: String,
        branch: String,
        changelist: usize,
        client_name: String,
        duration_ms: u64,
        file_count: usize,
        is_async: bool,
        commits_in_branch: usize,
    },
    /// `shelve.failed`
    ShelveFailed {
        timestamp: i64,
        user: String,
        repo: String,
        branch: String,
        error: String,
        duration_ms: u64,
        is_async: bool,
    },
    /// `shelve.merged`
    ShelveMerged {
        timestamp: i64,
        repo: String,
        branch: String,
        shelved_cl: usize,
        submitted_cl: usize,
        shelver_user: String,
    },
    /// `mirror.cycle_started`
    MirrorCycleStarted {
        timestamp: i64,
        repo: String,
        last_sync_change: usize,
    },
    /// `mirror.cycle_completed`
    MirrorCycleCompleted {
        timestamp: i64,
        repo: String,
        changes_synced: usize,
        new_last_sync: usize,
        duration_ms: u64,
    },
    /// `mirror.cycle_failed`
    MirrorCycleFailed {
        timestamp: i64,
        repo: String,
        error: String,
        duration_ms: u64,
    },
    /// `mirror.change_committed`
    MirrorChangeCommitted {
        timestamp: i64,
        repo: String,
        p4_change: usize,
        commit_hash: String,
        user: String,
        file_count: usize,
        duration_ms: u64,
        merge_parent: Option<String>,
        merge_strategy: Option<String>,
    },
    /// `mirror.file_skipped`
    MirrorFileSkipped {
        timestamp: i64,
        repo: String,
        p4_change: usize,
        depot_path: String,
        reason: String,
    },
    /// `auth.failed`
    AuthFailed {
        timestamp: i64,
        user: Option<String>,
        repo: String,
        reason: String,
    },
}

/// The mathematical form of an [`ObservabilityEvent`].
#[allow(inconsistent_fields)]
pub enum EventView {
    RequestCompleted {
        timestamp: i64,
        repo: Seq<char>,
        method: Seq<char>,
        git_service: Seq<char>,
        request_bytes: usize,
        response_bytes: usize,
        user: Option<Seq<char>>,
        duration_ms: u64,
    },
    PushReceived {
        timestamp: i64,
        user: Seq<char>,
        repo: Seq<char>,
        payload_bytes: usize,
        ref_count: usize,
    },
    PushBranchCreated {
        timestamp: i64,
        user: Seq<char>,
        repo: Seq<char>,
        branch: Seq<char>,
    },
    PushBranchUpdated {
        timestamp: i64,
        user: Seq<char>,
        repo: Seq<char>,
        branch: Seq<char>,
    },
    PushBranchDeleted {
        timestamp: i64,
        user: Seq<char>,
        repo: Seq<char>,
        branch: Seq<char>,
    },
    PushRejected {
        timestamp: i64,
        user: Option<Seq<char>>,
        repo: Seq<char>,
        branch: Option<Seq<char>>,
        reason: Seq<char>,
    },
    ShelveStarted {
        timestamp: i64,
        user: Seq<char>,
        repo: Seq<char>,
        branch: Seq<char>,
        is_async: bool,
    },
    ShelveCompleted {
        timestamp: i64,
        user: Seq<char>,
        repo: Seq<char>,
        branch: Seq<char>,
        changelist: usize,
        client_name: Seq<char>,
        duration_ms: u64,
        file_count: usize,
        is_async: bool,
        commits_in_branch: usize,
    },
    ShelveReshelved {
        timestamp: i64,
        user: Seq<char>,
        repo: Seq<char>,
        branch: Seq<char>,
        changelist: usize,
        client_name: Seq<char>,
        duration_ms: u64,
        file_count: usize,
        is_async: bool,
        commits_in_branch: usize,
    },
    ShelveFailed {
        timestamp: i64,
        user: Seq<char>,
        repo: Seq<char>,
        branch: Seq<char>,
        error: Seq<char>,
        duration_ms: u64,
        is_async: bool,
    },
    ShelveMerged {
        timestamp: i64,
        repo: Seq<char>,
        branch: Seq<char>,
        shelved_cl: usize,
        submitted_cl: usize,
        shelver_user: Seq<char>,
    },
    MirrorCycleStarted {
        timestamp: i64,
        repo: Seq<char>,
        last_sync_change: usize,
    },
    MirrorCycleCompleted {
        timestamp: i64,
        repo: Seq<char>,
        changes_synced: usize,
        new_last_sync: usize,
        duration_ms: u64,
    },
    MirrorCycleFailed {
        timestamp: i64,
        repo: Seq<char>,
        error: Seq<char>,
        duration_ms: u64,
    },
    MirrorChangeCommitted {
        timestamp: i64,
        repo: Seq<char>,
        p4_change: usize,
        commit_hash: Seq<char>,
        user: Seq<char>,
        file_count: usize,
        duration_ms: u64,
        merge_parent: Option<Seq<char>>,
        merge_strategy: Option<Seq<char>>,
    },
    MirrorFileSkipped {
        timestamp: i64,
        repo: Seq<char>,
        p4_change: usize,
        depot_path: Seq<char>,
        reason: Seq<char>,
    },
    AuthFailed {
        timestamp: i64,
        user: Option<Seq<char>>,
        repo: Seq<char>,
        reason: Seq<char>,
    },
}

impl View for ObservabilityEvent {
    type V = EventView;

    open spec fn view(&self) -> EventView {
        match self {
            ObservabilityEvent::RequestCompleted { timestamp, repo, method, git_service, request_bytes, response_bytes, user, duration_ms } => EventView::RequestCompleted {
                timestamp: *timestamp,
                repo: repo@,
                method: method@,
                git_service: git_service@,
                request_bytes: *request_bytes,
                response_bytes: *response_bytes,
                user: match user { Some(x) => Some(x@), None => None },
                duration_ms: *duration_ms,
            },
            ObservabilityEvent::PushReceived { timestamp, user, repo, payload_bytes, ref_count } => EventView::PushReceived {
                timestamp: *timestamp,
                user: user@,
                repo: repo@,
                payload_bytes: *payload_bytes,
                ref_count: *ref_count,
            },
            ObservabilityEvent::PushBranchCreated { timestamp, user, repo, branch } => EventView::PushBranchCreated {
                timestamp: *timestamp,
                user: user@,
                repo: repo@,
                branch: branch@,
            },
            ObservabilityEvent::PushBranchUpdated { timestamp, user, repo, branch } => EventView::PushBranchUpdated {
                timestamp: *timestamp,
                user: user@,
                repo: repo@,
                branch: branch@,
            },
            ObservabilityEvent::PushBranchDeleted { timestamp, user, repo, branch } => EventView::PushBranchDeleted {
                timestamp: *timestamp,
                user: user@,
                repo: repo@,
                branch: branch@,
            },
            ObservabilityEvent::PushRejected { timestamp, user, repo, branch, reason } => EventView::PushRejected {
                timestamp: *timestamp,
                user: match user { Some(x) => Some(x@), None => None },
                repo: repo@,
                branch: match branch { Some(x) => Some(x@), None => None },
                reason: reason@,
            },
            ObservabilityEvent::ShelveStarted { timestamp, user, repo, branch, is_async } => EventView::ShelveStarted {
                timestamp: *timestamp,
                user: user@,
                repo: repo@,
                branch: branch@,
                is_async: *is_async,
            },
            ObservabilityEvent::ShelveCompleted { timestamp, user, repo, branch, changelist, client_name, duration_ms, file_count, is_async, commits_in_branch } => EventView::ShelveCompleted {
                timestamp: *timestamp,
                user: user@,
                repo: repo@,
                branch: branch@,
                changelist: *changelist,
                client_name: client_name@,
                duration_ms: *duration_ms,
                file_count: *file_count,
                is_async: *is_async,
                commits_in_branch: *commits_in_branch,
            },
            ObservabilityEvent::ShelveReshelved { timestamp, user, repo, branch, changelist, client_name, duration_ms, file_count, is_async, commits_in_branch } => EventView::ShelveReshelved {
                timestamp: *timestamp,
                user: user@,
                repo: repo@,
                branch: branch@,
                changelist: *changelist,
                client_name: client_name@,
                duration_ms: *duration_ms,
                file_count: *file_count,
                is_async: *is_async,
                commits_in_branch: *commits_in_branch,
            },
            ObservabilityEvent::ShelveFailed { timestamp, user, repo, branch, error, duration_ms, is_async } => EventView::ShelveFailed {
                timestamp: *timestamp,
                user: user@,
                repo: repo@,
                branch: branch@,
                error: error@,
                duration_ms: *duration_ms,
                is_async: *is_async,
            },
            ObservabilityEvent::ShelveMerged { timestamp, repo, branch, shelved_cl, submitted_cl, shelver_user } => EventView::ShelveMerged {
                timestamp: *timestamp,
                repo: repo@,
                branch: branch@,
                shelved_cl: *shelved_cl,
                submitted_cl: *submitted_cl,
                shelver_user: shelver_user@,
            },
            ObservabilityEvent::MirrorCycleStarted { timestamp, repo, last_sync_change } => EventView::MirrorCycleStarted {
                timestamp: *timestamp,
                repo: repo@,
                last_sync_change: *last_sync_change,
            },
            ObservabilityEvent::MirrorCycleCompleted { timestamp, repo, changes_synced, new_last_sync, duration_ms } => EventView::MirrorCycleCompleted {
                timestamp: *timestamp,
                repo: repo@,
                changes_synced: *changes_synced,
                new_last_sync: *new_last_sync,
                duration_ms: *duration_ms,
            },
            ObservabilityEvent::MirrorCycleFailed { timestamp, repo, error, duration_ms } => EventView::MirrorCycleFailed {
                timestamp: *timestamp,
                repo: repo@,
                error: error@,
                duration_ms: *duration_ms,
            },
            ObservabilityEvent::MirrorChangeCommitted { timestamp, repo, p4_change, commit_hash, user, file_count, duration_ms, merge_parent, merge_strategy } => EventView::MirrorChangeCommitted {
                timestamp: *timestamp,
                repo: repo@,
                p4_change: *p4_change,
                commit_hash: commit_hash@,
                user: user@,
                file_count: *file_count,
                duration_ms: *duration_ms,
                merge_parent: match merge_parent { Some(x) => Some(x@), None => None },
                merge_strategy: match merge_strategy { Some(x) => Some(x@), None => None },
            },
            ObservabilityEvent::MirrorFileSkipped { timestamp, repo, p4_change, depot_path, reason } => EventView::MirrorFileSkipped {
                timestamp: *timestamp,
                repo: repo@,
                p4_change: *p4_change,
                depot_path: depot_path@,
                reason: reason@,
            },
            ObservabilityEvent::AuthFailed { timestamp, user, repo, reason } => EventView::AuthFailed {
                timestamp: *timestamp,
                user: match user { Some(x) => Some(x@), None => None },
                repo: repo@,
                reason: reason@,
            },
        }
    }
}

/// The name an event is recorded under.
pub open spec fn event_type_name(e: ObservabilityEvent) -> Seq<char> {
    match e {
        ObservabilityEvent::RequestCompleted { .. } => "request.completed"@,
        ObservabilityEvent::PushReceived { .. } => "push.received"@,
        ObservabilityEvent::PushBranchCreated { .. } => "push.branch_created"@,
        ObservabilityEvent::PushBranchUpdated { .. } => "push.branch_updated"@,
        ObservabilityEvent::PushBranchDeleted { .. } => "push.branch_deleted"@,
        ObservabilityEvent::PushRejected { .. } => "push.rejected"@,
        ObservabilityEvent::ShelveStarted { .. } => "shelve.started"@,
        ObservabilityEvent::ShelveCompleted { .. } => "shelve.completed"@,
        ObservabilityEvent::ShelveReshelved { .. } => "shelve.reshelved"@,
        ObservabilityEvent::ShelveFailed { .. } => "shelve.failed"@,
        ObservabilityEvent::ShelveMerged { .. } => "shelve.merged"@,
        ObservabilityEvent::MirrorCycleStarted { .. } => "mirror.cycle_started"@,
        ObservabilityEvent::MirrorCycleCompleted { .. } => "mirror.cycle_completed"@,
        ObservabilityEvent::MirrorCycleFailed { .. } => "mirror.cycle_failed"@,
        ObservabilityEvent::MirrorChangeCommitted { .. } => "mirror.change_committed"@,
        ObservabilityEvent::MirrorFileSkipped { .. } => "mirror.file_skipped"@,
        ObservabilityEvent::AuthFailed { .. } => "auth.failed"@,
    }
}

/// When an event happened.
pub open spec fn event_timestamp(e: ObservabilityEvent) -> i64 {
    match e {
        ObservabilityEvent::RequestCompleted { timestamp, .. } => timestamp,
        ObservabilityEvent::PushReceived { timestamp, .. } => timestamp,
        ObservabilityEvent::PushBranchCreated { timestamp, .. } => timestamp,
        ObservabilityEvent::PushBranchUpdated { timestamp, .. } => timestamp,
        ObservabilityEvent::PushBranchDeleted { timestamp, .. } => timestamp,
        ObservabilityEvent::PushRejected { timestamp, .. } => timestamp,
        ObservabilityEvent::ShelveStarted { timestamp, .. } => timestamp,
        ObservabilityEvent::ShelveCompleted { timestamp, .. } => timestamp,
        ObservabilityEvent::ShelveReshelved { timestamp, .. } => timestamp,
        ObservabilityEvent::ShelveFailed { timestamp, .. } => timestamp,
        ObservabilityEvent::ShelveMerged { timestamp, .. } => timestamp,
        ObservabilityEvent::MirrorCycleStarted { timestamp, .. } => timestamp,
        ObservabilityEvent::MirrorCycleCompleted { timestamp, .. } => timestamp,
        ObservabilityEvent::MirrorCycleFailed { timestamp, .. } => timestamp,
        ObservabilityEvent::MirrorChangeCommitted { timestamp, .. } => timestamp,
        ObservabilityEvent::MirrorFileSkipped { timestamp, .. } => timestamp,
        ObservabilityEvent::AuthFailed { timestamp, .. } => timestamp,
    }
}

/// The repository an event concerns.
pub open spec fn event_repo(e: ObservabilityEvent) -> Seq<char> {
    match e {
        ObservabilityEvent::RequestCompleted { repo, .. } => repo@,
        ObservabilityEvent::PushReceived { repo, .. } => repo@,
        ObservabilityEvent::PushBranchCreated { repo, .. } => repo@,
        ObservabilityEvent::PushBranchUpdated { repo, .. } => repo@,
        ObservabilityEvent::PushBranchDeleted { repo, .. } => repo@,
        ObservabilityEvent::PushRejected { repo, .. } => repo@,
        ObservabilityEvent::ShelveStarted { repo, .. } => repo@,
        ObservabilityEvent::ShelveCompleted { repo, .. } => repo@,
        ObservabilityEvent::ShelveReshelved { repo, .. } => repo@,
        ObservabilityEvent::ShelveFailed { repo, .. } => repo@,
        ObservabilityEvent::ShelveMerged { repo, .. } => repo@,
        ObservabilityEvent::MirrorCycleStarted { repo, .. } => repo@,
        ObservabilityEvent::MirrorCycleCompleted { repo, .. } => repo@,
        ObservabilityEvent::MirrorCycleFailed { repo, .. } => repo@,
        ObservabilityEvent::MirrorChangeCommitted { repo, .. } => repo@,
        ObservabilityEvent::MirrorFileSkipped { repo, .. } => repo@,
        ObservabilityEvent::AuthFailed { repo, .. } => repo@,
    }
}

/// The user an event concerns, if any: the pusher, the shelver, or the
/// author of a mirrored change.
pub open spec fn event_user(e: ObservabilityEvent) -> Option<Seq<char>> {
    match e {
        ObservabilityEvent::RequestCompleted { user, .. } => match user { Some(u) => Some(u@), None => None },
        ObservabilityEvent::PushReceived { user, .. } => Some(user@),
        ObservabilityEvent::PushBranchCreated { user, .. } => Some(user@),
        ObservabilityEvent::PushBranchUpdated { user, .. } => Some(user@),
        ObservabilityEvent::PushBranchDeleted { user, .. } => Some(user@),
        ObservabilityEvent::PushRejected { user, .. } => match user { Some(u) => Some(u@), None => None },
        ObservabilityEvent::ShelveStarted { user, .. } => Some(user@),
        ObservabilityEvent::ShelveCompleted { user, .. } => Some(user@),
        ObservabilityEvent::ShelveReshelved { user, .. } => Some(user@),
        ObservabilityEvent::ShelveFailed { user, .. } => Some(user@),
        ObservabilityEvent::ShelveMerged { shelver_user, .. } => Some(shelver_user@),
        ObservabilityEvent::MirrorCycleStarted { .. } => None,
        ObservabilityEvent::MirrorCycleCompleted { .. } => None,
        ObservabilityEvent::MirrorCycleFailed { .. } => None,
        ObservabilityEvent::MirrorChangeCommitted { user, .. } => Some(user@),
        ObservabilityEvent::MirrorFileSkipped { .. } => None,
        ObservabilityEvent::AuthFailed { user, .. } => match user { Some(u) => Some(u@), None => None },
    }
}

impl ObservabilityEvent {
    /// The name the event is recorded under.
    pub fn event_type(&self) -> (r: &'static str)
        ensures
            r@ == event_type_name(*self),
    {
        match self {
            ObservabilityEvent::RequestCompleted { .. } => "request.completed",
            ObservabilityEvent::PushReceived { .. } => "push.received",
            ObservabilityEvent::PushBranchCreated { .. } => "push.branch_created",
            ObservabilityEvent::PushBranchUpdated { .. } => "push.branch_updated",
            ObservabilityEvent::PushBranchDeleted { .. } => "push.branch_deleted",
            ObservabilityEvent::PushRejected { .. } => "push.rejected",
            ObservabilityEvent::ShelveStarted { .. } => "shelve.started",
            ObservabilityEvent::ShelveCompleted { .. } => "shelve.completed",
            ObservabilityEvent::ShelveReshelved { .. } => "shelve.reshelved",
            ObservabilityEvent::ShelveFailed { .. } => "shelve.failed",
            ObservabilityEvent::ShelveMerged { .. } => "shelve.merged",
            ObservabilityEvent::MirrorCycleStarted { .. } => "mirror.cycle_started",
            ObservabilityEvent::MirrorCycleCompleted { .. } => "mirror.cycle_completed",
            ObservabilityEvent::MirrorCycleFailed { .. } => "mirror.cycle_failed",
            ObservabilityEvent::MirrorChangeCommitted { .. } => "mirror.change_committed",
            ObservabilityEvent::MirrorFileSkipped { .. } => "mirror.file_skipped",
            ObservabilityEvent::AuthFailed { .. } => "auth.failed",
        }
    }

    /// When the event happened, in milliseconds since the Unix epoch.
    pub fn timestamp(&self) -> (r: i64)
        ensures
            r == event_timestamp(*self),
    {
        match self {
            ObservabilityEvent::RequestCompleted { timestamp, .. } => *timestamp,
            ObservabilityEvent::PushReceived { timestamp, .. } => *timestamp,
            ObservabilityEvent::PushBranchCreated { timestamp, .. } => *timestamp,
            ObservabilityEvent::PushBranchUpdated { timestamp, .. } => *timestamp,
            ObservabilityEvent::PushBranchDeleted { timestamp, .. } => *timestamp,
            ObservabilityEvent::PushRejected { timestamp, .. } => *timestamp,
            ObservabilityEvent::ShelveStarted { timestamp, .. } => *timestamp,
            ObservabilityEvent::ShelveCompleted { timestamp, .. } => *timestamp,
            ObservabilityEvent::ShelveReshelved { timestamp, .. } => *timestamp,
            ObservabilityEvent::ShelveFailed { timestamp, .. } => *timestamp,
            ObservabilityEvent::ShelveMerged { timestamp, .. } => *timestamp,
            ObservabilityEvent::MirrorCycleStarted { timestamp, .. } => *timestamp,
            ObservabilityEvent::MirrorCycleCompleted { timestamp, .. } => *timestamp,
            ObservabilityEvent::MirrorCycleFailed { timestamp, .. } => *timestamp,
            ObservabilityEvent::MirrorChangeCommitted { timestamp, .. } => *timestamp,
            ObservabilityEvent::MirrorFileSkipped { timestamp, .. } => *timestamp,
            ObservabilityEvent::AuthFailed { timestamp, .. } => *timestamp,
        }
    }

    /// The repository the event concerns.
    pub fn repo(&self) -> (r: &str)
        ensures
            r@ == event_repo(*self),
    {
        match self {
            ObservabilityEvent::RequestCompleted { repo, .. } => repo.as_str(),
            ObservabilityEvent::PushReceived { repo, .. } => repo.as_str(),
            ObservabilityEvent::PushBranchCreated { repo, .. } => repo.as_str(),
            ObservabilityEvent::PushBranchUpdated { repo, .. } => repo.as_str(),
            ObservabilityEvent::PushBranchDeleted { repo, .. } => repo.as_str(),
            ObservabilityEvent::PushRejected { repo, .. } => repo.as_str(),
            ObservabilityEvent::ShelveStarted { repo, .. } => repo.as_str(),
            ObservabilityEvent::ShelveCompleted { repo, .. } => repo.as_str(),
            ObservabilityEvent::ShelveReshelved { repo, .. } => repo.as_str(),
            ObservabilityEvent::ShelveFailed { repo, .. } => repo.as_str(),
            ObservabilityEvent::ShelveMerged { repo, .. } => repo.as_str(),
            ObservabilityEvent::MirrorCycleStarted { repo, .. } => repo.as_str(),
            ObservabilityEvent::MirrorCycleCompleted { repo, .. } => repo.as_str(),
            ObservabilityEvent::MirrorCycleFailed { repo, .. } => repo.as_str(),
            ObservabilityEvent::MirrorChangeCommitted { repo, .. } => repo.as_str(),
            ObservabilityEvent::MirrorFileSkipped { repo, .. } => repo.as_str(),
            ObservabilityEvent::AuthFailed { repo, .. } => repo.as_str(),
        }
    }

    /// The user the event concerns, if any.
    pub fn user(&self) -> (r: Option<&str>)
        ensures
            match r {
                Some(u) => event_user(*self) == Some(u@),
                None => event_user(*self) == None::<Seq<char>>,
            },
    {
        match self {
            ObservabilityEvent::RequestCompleted { user, .. } => match user {
                Some(u) => Some(u.as_str()),
                None => None,
            },
            ObservabilityEvent::PushReceived { user, .. } => Some(user.as_str()),
            ObservabilityEvent::PushBranchCreated { user, .. } => Some(user.as_str()),
            ObservabilityEvent::PushBranchUpdated { user, .. } => Some(user.as_str()),
            ObservabilityEvent::PushBranchDeleted { user, .. } => Some(user.as_str()),
            ObservabilityEvent::PushRejected { user, .. } => match user {
                Some(u) => Some(u.as_str()),
                None => None,
            },
            ObservabilityEvent::ShelveStarted { user, .. } => Some(user.as_str()),
            ObservabilityEvent::ShelveCompleted { user, .. } => Some(user.as_str()),
            ObservabilityEvent::ShelveReshelved { user, .. } => Some(user.as_str()),
            ObservabilityEvent::ShelveFailed { user, .. } => Some(user.as_str()),
            ObservabilityEvent::ShelveMerged { shelver_user, .. } => Some(shelver_user.as_str()),
            ObservabilityEvent::MirrorCycleStarted { .. } => None,
            ObservabilityEvent::MirrorCycleCompleted { .. } => None,
            ObservabilityEvent::MirrorCycleFailed { .. } => None,
            ObservabilityEvent::MirrorChangeCommitted { user, .. } => Some(user.as_str()),
            ObservabilityEvent::MirrorFileSkipped { .. } => None,
            ObservabilityEvent::AuthFailed { user, .. } => match user {
                Some(u) => Some(u.as_str()),
                None => None,
            },
        }
    }
}

} // verus!
