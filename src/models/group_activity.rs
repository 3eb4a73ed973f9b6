//! What happens inside a study group.
use crate::record::Identity;
use vstd::prelude::*;

verus! {

/// One event in a study group: a post, a resource, a question.
pub struct GroupActivity {
    pub id: u64,
    pub group_id: u64,
    pub user_id: Identity,
    pub activity_type: String,
    pub content: Option<String>,
    pub created_at: u64,
}
/// A resource shared in a study group: a link, a file or a note.
pub struct StudyResource {
    pub id: u64,
    pub group_id: u64,
    pub user_id: Identity,
    pub title: String,
    pub description: Option<String>,
    pub resource_type: String,
    pub resource_url: Option<String>,
    pub content: Option<String>,
    pub created_at: u64,
}
/// A message posted in a study group.
pub struct GroupMessage {
    pub id: u64,
    pub group_id: u64,
    pub user_id: Identity,
    pub content: String,
    pub timestamp: u64,
    pub attachments: Option<Vec<String>>,
}
/// A poll put to a study group.
pub struct GroupPoll {
    pub id: u64,
    pub group_id: u64,
    pub creator_id: Identity,
    pub question: String,
    pub created_at: u64,
    pub expires_at: Option<u64>,
    pub is_active: bool,
}
/// One choice of a poll.
pub struct PollOption {
    pub id: u64,
    pub poll_id: u64,
    pub text: String,
}
/// A user's vote in a poll.
pub struct PollVote {
    pub id: u64,
    pub poll_id: u64,
    pub option_id: u64,
    pub user_id: Identity,
    pub timestamp: u64,
}
/// A scheduled session of a study group; `date` is "YYYY-MM-DD", `time` is "HH:MM".
pub struct StudySession {
    pub id: u64,
    pub group_id: u64,
    pub creator_id: Identity,
    pub title: String,
    pub description: Option<String>,
    pub date: String,
    pub time: String,
    pub duration_minutes: u32,
    pub max_participants: u32,
    pub topics: Vec<String>,
    pub created_at: u64,
}
/// A user's place in a study session; its status is "confirmed", "pending" or "declined".
pub struct SessionParticipant {
    pub id: u64,
    pub session_id: u64,
    pub user_id: Identity,
    pub status: String,
    pub joined_at: u64,
}
} // verus!
