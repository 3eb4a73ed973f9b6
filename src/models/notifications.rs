//! Notifications.
use crate::record::Identity;
use vstd::prelude::*;

verus! {

/// A notification for a user; `notification_type` is "info", "success", "warning" or "error", `source` names what raised it.
pub struct Notification {
    pub id: u64,
    pub user_id: Identity,
    pub notification_type: String,
    pub content: String,
    pub is_read: bool,
    pub source: String,
    pub related_id: Option<u64>,
    pub timestamp: u64,
}
} // verus!
