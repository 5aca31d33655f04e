//! Counters that managers report (times in milliseconds).

use crate::auth::{copy_opt_platform, opt_platform_view};
use crate::device::{copy_opt_string, opt_view, DevicePlatform, PlatformView};
use crate::utils::current_timestamp_ms;
use vstd::prelude::*;

verus! {

/// Outcome of a broadcast.
#[derive(Debug, Clone, Copy, PartialEq, Eq, Structural)]
pub struct BroadcastStats {
    /// Connections the message reached.
    pub success: usize,
    /// Connections it could not be sent to.
    pub failed: usize,
}

impl BroadcastStats {
    /// Nothing sent yet.
    pub fn new() -> (s: BroadcastStats)
        ensures
            s == (BroadcastStats { success: 0, failed: 0 }),
    {
        BroadcastStats { success: 0, failed: 0 }
    }

    /// Counts one delivery (counts saturate).
    pub fn record(&mut self, delivered: bool)
        ensures
            delivered ==> *final(self) == (BroadcastStats {
                success: if old(self).success < usize::MAX { (old(self).success + 1) as usize } else { usize::MAX },
                ..*old(self)
            }),
            !delivered ==> *final(self) == (BroadcastStats {
                failed: if old(self).failed < usize::MAX { (old(self).failed + 1) as usize } else { usize::MAX },
                ..*old(self)
            }),
    {
        if delivered {
            if self.success < usize::MAX {
                self.success = self.success + 1;
            }
        } else {
            if self.failed < usize::MAX {
                self.failed = self.failed + 1;
            }
        }
    }
}

/// What the heartbeat manager last saw.
#[derive(Debug, Clone, Copy, PartialEq, Eq, Structural)]
pub struct HeartbeatStats {
    pub total_connections: usize,
    /// When connections were last checked.
    pub last_check_time: u64,
    /// When they are checked next.
    pub next_check_time: u64,
}

/// Time elapsed since `started_at` at `now` (0 if `now` is earlier).
pub open spec fn elapsed_since(started_at: u64, now: u64) -> u64 {
    if now >= started_at {
        (now - started_at) as u64
    } else {
        0
    }
}

/// Counters of a manager that groups connections by user.
#[derive(Debug, Clone, Copy, PartialEq, Eq, Structural)]
pub struct UserBasedStats {
    pub total_users: usize,
    pub active_users: usize,
    pub total_connections: usize,
    pub active_connections: usize,
    pub total_messages: u64,
    /// When the server started.
    pub started_at: u64,
}

impl UserBasedStats {
    /// Time the server has been up at `now`.
    pub fn uptime_at(&self, now: u64) -> (r: u64)
        ensures
            r == elapsed_since(self.started_at, now),
    {
        if now >= self.started_at {
            now - self.started_at
        } else {
            0
        }
    }

    /// Time the server has been up; depends on the clock.
    pub fn uptime(&self) -> (r: u64)
        ensures
            exists|now: u64| r == #[trigger] elapsed_since(self.started_at, now),
    {
        let now = current_timestamp_ms();
        self.uptime_at(now)
    }
}

/// Counters of a manager of authenticated user connections.
#[derive(Debug, Clone, Copy, PartialEq, Eq, Structural)]
pub struct UserConnectionStats {
    pub total_users: usize,
    pub active_users: usize,
    pub total_connections: usize,
    pub active_connections: usize,
    /// Connections waiting for credentials.
    pub pending_auth_connections: usize,
    pub total_messages: u64,
    /// When the server started.
    pub started_at: u64,
}

impl UserConnectionStats {
    /// Time the server has been up at `now`.
    pub fn uptime_at(&self, now: u64) -> (r: u64)
        ensures
            r == elapsed_since(self.started_at, now),
    {
        if now >= self.started_at {
            now - self.started_at
        } else {
            0
        }
    }

    /// Time the server has been up; depends on the clock.
    pub fn uptime(&self) -> (r: u64)
        ensures
            exists|now: u64| r == #[trigger] elapsed_since(self.started_at, now),
    {
        let now = current_timestamp_ms();
        self.uptime_at(now)
    }
}

/// A connection waiting for credentials.
#[derive(Debug, Clone)]
pub struct PendingAuthInfo {
    pub connected_at: u64,
    pub last_activity: u64,
    pub platform: Option<DevicePlatform>,
    pub device_id: Option<String>,
}

/// The view of a [`PendingAuthInfo`].
pub struct PendingAuthInfoView {
    pub connected_at: u64,
    pub last_activity: u64,
    pub platform: Option<PlatformView>,
    pub device_id: Option<Seq<char>>,
}

impl View for PendingAuthInfo {
    type V = PendingAuthInfoView;

    open spec fn view(&self) -> PendingAuthInfoView {
        PendingAuthInfoView {
            connected_at: self.connected_at,
            last_activity: self.last_activity,
            platform: opt_platform_view(self.platform),
            device_id: opt_view(self.device_id),
        }
    }
}

impl PendingAuthInfo {
    /// A copy with the same view.
    pub fn copy_info(&self) -> (r: PendingAuthInfo)
        ensures
            r@ == self@,
    {
        PendingAuthInfo {
            connected_at: self.connected_at,
            last_activity: self.last_activity,
            platform: copy_opt_platform(&self.platform),
            device_id: copy_opt_string(&self.device_id),
        }
    }
}

} // verus!
