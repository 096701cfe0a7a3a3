//! Notifications of failures and of the safety brake. Only the events and
//! the notifier's interface are defined; senders are left to users.

use vstd::prelude::*;

verus! {

/// An event worth telling someone about.
#[derive(Debug, Clone, PartialEq)]
pub enum NotificationEvent {
    JobFailed { job_name: String, reason: String },
    SafetyBrakeTriggered { job_name: String, count: usize, total_bytes: u64 },
    StageError { job_name: String, path: String, reason: String },
}

/// Something that delivers notifications.
pub trait Notifier {
    fn notify(&self, event: NotificationEvent);
}

} // verus!
