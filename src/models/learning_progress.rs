//! How far users have come.
use crate::record::Identity;
use vstd::prelude::*;

verus! {

/// A user's progress in a course. `progress_percentage_bits` holds the bits of the percentage as an IEEE-754 single.
pub struct LearningProgress {
    pub id: u64,
    pub user_id: Identity,
    pub session_id: u64,
    pub course_id: u64,
    pub current_module_id: Option<u64>,
    pub progress_percentage_bits: u32,
    pub last_activity: u64,
}
/// A user's progress along a learning path. `progress_percentage_bits` holds the bits of the percentage as an IEEE-754 single.
pub struct LearningPathProgress {
    pub id: u64,
    pub user_id: Identity,
    pub learning_path_id: u64,
    pub current_module_id: Option<u64>,
    pub progress_percentage_bits: u32,
    pub last_activity: u64,
}
/// Whether a user completed a module.
pub struct ModuleCompletion {
    pub id: u64,
    pub user_id: Identity,
    pub module_id: u64,
    pub completed: bool,
    pub completion_date: Option<u64>,
}
/// A user's learning figures for one day of a session; the last three fields are JSON text.
pub struct LearningMetrics {
    pub id: u64,
    pub user_id: Identity,
    pub session_id: u64,
    pub date: u64,
    pub time_spent_minutes: u32,
    pub messages_sent: u32,
    pub comprehension_scores: String,
    pub difficulty_adjustments: String,
    pub engagement_metrics: String,
}
} // verus!
