//! Achievements, tasks and their rewards.
use crate::codec::{Field, FieldVal, fields_view};
use crate::record::{
    Identity, Record, copy_bytes, flag, flag_at, flag_val, identity_at, nat_at,
    opt_names_unique, opt_nat, opt_nat_at, opt_nat_val, opt_pairs, opt_pairs_at, opt_pairs_val,
    opt_text, opt_text_at, opt_text_val, text_at, u32_at,
};
use vstd::prelude::*;

verus! {

/// An achievement users can earn.
pub struct Achievement {
    pub id: u64,
    pub public_id: String,
    pub title: String,
    pub description: String,
    pub category: String,
    pub icon: Option<String>,
    pub requirements: String,
    pub reward_tokens: u32,
    pub reward_points: u32,
    pub is_active: bool,
    pub created_at: u64,
    pub created_by: Identity,
}
impl Record for Achievement {
    open spec fn fields(&self) -> Seq<Field> {
        seq![
            Field::Nat(self.id),
            Field::Text(self.public_id@),
            Field::Text(self.title@),
            Field::Text(self.description@),
            Field::Text(self.category@),
            opt_text(self.icon),
            Field::Text(self.requirements@),
            Field::Nat(self.reward_tokens as u64),
            Field::Nat(self.reward_points as u64),
            flag(self.is_active),
            Field::Nat(self.created_at),
            Field::Bytes(self.created_by@),
        ]
    }

    fn to_fields(&self) -> (r: Vec<FieldVal>) {
        let r = vec![
            FieldVal::Nat(self.id),
            FieldVal::Text(self.public_id.clone()),
            FieldVal::Text(self.title.clone()),
            FieldVal::Text(self.description.clone()),
            FieldVal::Text(self.category.clone()),
            opt_text_val(&self.icon),
            FieldVal::Text(self.requirements.clone()),
            FieldVal::Nat(self.reward_tokens as u64),
            FieldVal::Nat(self.reward_points as u64),
            flag_val(self.is_active),
            FieldVal::Nat(self.created_at),
            FieldVal::Bytes(copy_bytes(&self.created_by.bytes)),
        ];
        assert(fields_view(r@) =~= self.fields());
        r
    }

    fn from_fields(fs: &Vec<FieldVal>) -> (r: Option<Self>) {
        if fs.len() != 12 {
            proof {
                assert forall|x: Self| #[trigger] x.fields() != fields_view(fs@) by {
                    assert(x.fields().len() == 12);
                }
            }
            return None;
        }
        let v_id = match nat_at(fs, 0) {
            Some(v) => v,
            None => {
                return None;
            },
        };
        let v_public_id = match text_at(fs, 1) {
            Some(v) => v,
            None => {
                return None;
            },
        };
        let v_title = match text_at(fs, 2) {
            Some(v) => v,
            None => {
                return None;
            },
        };
        let v_description = match text_at(fs, 3) {
            Some(v) => v,
            None => {
                return None;
            },
        };
        let v_category = match text_at(fs, 4) {
            Some(v) => v,
            None => {
                return None;
            },
        };
        let v_icon = match opt_text_at(fs, 5) {
            Some(v) => v,
            None => {
                return None;
            },
        };
        let v_requirements = match text_at(fs, 6) {
            Some(v) => v,
            None => {
                return None;
            },
        };
        let v_reward_tokens = match u32_at(fs, 7) {
            Some(v) => v,
            None => {
                return None;
            },
        };
        let v_reward_points = match u32_at(fs, 8) {
            Some(v) => v,
            None => {
                return None;
            },
        };
        let v_is_active = match flag_at(fs, 9) {
            Some(v) => v,
            None => {
                return None;
            },
        };
        let v_created_at = match nat_at(fs, 10) {
            Some(v) => v,
            None => {
                return None;
            },
        };
        let v_created_by = match identity_at(fs, 11) {
            Some(v) => v,
            None => {
                return None;
            },
        };
        let r = Achievement {
            id: v_id,
            public_id: v_public_id,
            title: v_title,
            description: v_description,
            category: v_category,
            icon: v_icon,
            requirements: v_requirements,
            reward_tokens: v_reward_tokens,
            reward_points: v_reward_points,
            is_active: v_is_active,
            created_at: v_created_at,
            created_by: v_created_by,
        };
        assert(r.fields() =~= fields_view(fs@));
        Some(r)
    }
}
/// A user's progress towards an achievement. `progress_bits` holds the bits of the progress, from 0 to 100, as an IEEE-754 single.
pub struct UserAchievement {
    pub id: u64,
    pub user_id: Identity,
    pub achievement_id: u64,
    pub progress_bits: u32,
    pub is_completed: bool,
    pub completed_at: Option<u64>,
    pub tokens_earned: u32,
    pub points_earned: u32,
    pub created_at: u64,
    pub updated_at: u64,
}
impl Record for UserAchievement {
    open spec fn fields(&self) -> Seq<Field> {
        seq![
            Field::Nat(self.id),
            Field::Bytes(self.user_id@),
            Field::Nat(self.achievement_id),
            Field::Nat(self.progress_bits as u64),
            flag(self.is_completed),
            opt_nat(self.completed_at),
            Field::Nat(self.tokens_earned as u64),
            Field::Nat(self.points_earned as u64),
            Field::Nat(self.created_at),
            Field::Nat(self.updated_at),
        ]
    }

    fn to_fields(&self) -> (r: Vec<FieldVal>) {
        let r = vec![
            FieldVal::Nat(self.id),
            FieldVal::Bytes(copy_bytes(&self.user_id.bytes)),
            FieldVal::Nat(self.achievement_id),
            FieldVal::Nat(self.progress_bits as u64),
            flag_val(self.is_completed),
            opt_nat_val(self.completed_at),
            FieldVal::Nat(self.tokens_earned as u64),
            FieldVal::Nat(self.points_earned as u64),
            FieldVal::Nat(self.created_at),
            FieldVal::Nat(self.updated_at),
        ];
        assert(fields_view(r@) =~= self.fields());
        r
    }

    fn from_fields(fs: &Vec<FieldVal>) -> (r: Option<Self>) {
        if fs.len() != 10 {
            proof {
                assert forall|x: Self| #[trigger] x.fields() != fields_view(fs@) by {
                    assert(x.fields().len() == 10);
                }
            }
            return None;
        }
        let v_id = match nat_at(fs, 0) {
            Some(v) => v,
            None => {
                return None;
            },
        };
        let v_user_id = match identity_at(fs, 1) {
            Some(v) => v,
            None => {
                return None;
            },
        };
        let v_achievement_id = match nat_at(fs, 2) {
            Some(v) => v,
            None => {
                return None;
            },
        };
        let v_progress_bits = match u32_at(fs, 3) {
            Some(v) => v,
            None => {
                return None;
            },
        };
        let v_is_completed = match flag_at(fs, 4) {
            Some(v) => v,
            None => {
                return None;
            },
        };
        let v_completed_at = match opt_nat_at(fs, 5) {
            Some(v) => v,
            None => {
                return None;
            },
        };
        let v_tokens_earned = match u32_at(fs, 6) {
            Some(v) => v,
            None => {
                return None;
            },
        };
        let v_points_earned = match u32_at(fs, 7) {
            Some(v) => v,
            None => {
                return None;
            },
        };
        let v_created_at = match nat_at(fs, 8) {
            Some(v) => v,
            None => {
                return None;
            },
        };
        let v_updated_at = match nat_at(fs, 9) {
            Some(v) => v,
            None => {
                return None;
            },
        };
        let r = UserAchievement {
            id: v_id,
            user_id: v_user_id,
            achievement_id: v_achievement_id,
            progress_bits: v_progress_bits,
            is_completed: v_is_completed,
            completed_at: v_completed_at,
            tokens_earned: v_tokens_earned,
            points_earned: v_points_earned,
            created_at: v_created_at,
            updated_at: v_updated_at,
        };
        assert(r.fields() =~= fields_view(fs@));
        Some(r)
    }
}
/// A task users can complete for rewards; `category` is "learning", "social" or "engagement", `difficulty` is "easy", "medium" or "hard".
pub struct Task {
    pub id: u64,
    pub public_id: String,
    pub title: String,
    pub description: String,
    pub category: String,
    pub difficulty: String,
    pub token_reward: u32,
    pub points_reward: u32,
    pub requirements: Option<String>,
    pub is_active: bool,
    pub is_repeatable: bool,
    pub max_completions: u32,
    pub created_by: Identity,
    pub created_at: u64,
    pub expires_at: Option<u64>,
    pub metadata: Option<Vec<(String, String)>>,
}
impl Record for Task {
    open spec fn fields(&self) -> Seq<Field> {
        seq![
            Field::Nat(self.id),
            Field::Text(self.public_id@),
            Field::Text(self.title@),
            Field::Text(self.description@),
            Field::Text(self.category@),
            Field::Text(self.difficulty@),
            Field::Nat(self.token_reward as u64),
            Field::Nat(self.points_reward as u64),
            opt_text(self.requirements),
            flag(self.is_active),
            flag(self.is_repeatable),
            Field::Nat(self.max_completions as u64),
            Field::Bytes(self.created_by@),
            Field::Nat(self.created_at),
            opt_nat(self.expires_at),
            opt_pairs(self.metadata),
        ]
    }

    fn to_fields(&self) -> (r: Vec<FieldVal>) {
        let r = vec![
            FieldVal::Nat(self.id),
            FieldVal::Text(self.public_id.clone()),
            FieldVal::Text(self.title.clone()),
            FieldVal::Text(self.description.clone()),
            FieldVal::Text(self.category.clone()),
            FieldVal::Text(self.difficulty.clone()),
            FieldVal::Nat(self.token_reward as u64),
            FieldVal::Nat(self.points_reward as u64),
            opt_text_val(&self.requirements),
            flag_val(self.is_active),
            flag_val(self.is_repeatable),
            FieldVal::Nat(self.max_completions as u64),
            FieldVal::Bytes(copy_bytes(&self.created_by.bytes)),
            FieldVal::Nat(self.created_at),
            opt_nat_val(self.expires_at),
            opt_pairs_val(&self.metadata),
        ];
        assert(fields_view(r@) =~= self.fields());
        r
    }

    fn from_fields(fs: &Vec<FieldVal>) -> (r: Option<Self>) {
        if fs.len() != 16 {
            proof {
                assert forall|x: Self| #[trigger] x.fields() != fields_view(fs@) by {
                    assert(x.fields().len() == 16);
                }
            }
            return None;
        }
        let v_id = match nat_at(fs, 0) {
            Some(v) => v,
            None => {
                return None;
            },
        };
        let v_public_id = match text_at(fs, 1) {
            Some(v) => v,
            None => {
                return None;
            },
        };
        let v_title = match text_at(fs, 2) {
            Some(v) => v,
            None => {
                return None;
            },
        };
        let v_description = match text_at(fs, 3) {
            Some(v) => v,
            None => {
                return None;
            },
        };
        let v_category = match text_at(fs, 4) {
            Some(v) => v,
            None => {
                return None;
            },
        };
        let v_difficulty = match text_at(fs, 5) {
            Some(v) => v,
            None => {
                return None;
            },
        };
        let v_token_reward = match u32_at(fs, 6) {
            Some(v) => v,
            None => {
                return None;
            },
        };
        let v_points_reward = match u32_at(fs, 7) {
            Some(v) => v,
            None => {
                return None;
            },
        };
        let v_requirements = match opt_text_at(fs, 8) {
            Some(v) => v,
            None => {
                return None;
            },
        };
        let v_is_active = match flag_at(fs, 9) {
            Some(v) => v,
            None => {
                return None;
            },
        };
        let v_is_repeatable = match flag_at(fs, 10) {
            Some(v) => v,
            None => {
                return None;
            },
        };
        let v_max_completions = match u32_at(fs, 11) {
            Some(v) => v,
            None => {
                return None;
            },
        };
        let v_created_by = match identity_at(fs, 12) {
            Some(v) => v,
            None => {
                return None;
            },
        };
        let v_created_at = match nat_at(fs, 13) {
            Some(v) => v,
            None => {
                return None;
            },
        };
        let v_expires_at = match opt_nat_at(fs, 14) {
            Some(v) => v,
            None => {
                return None;
            },
        };
        let v_metadata = match opt_pairs_at(fs, 15) {
            Some(v) => v,
            None => {
                return None;
            },
        };
        let r = Task {
            id: v_id,
            public_id: v_public_id,
            title: v_title,
            description: v_description,
            category: v_category,
            difficulty: v_difficulty,
            token_reward: v_token_reward,
            points_reward: v_points_reward,
            requirements: v_requirements,
            is_active: v_is_active,
            is_repeatable: v_is_repeatable,
            max_completions: v_max_completions,
            created_by: v_created_by,
            created_at: v_created_at,
            expires_at: v_expires_at,
            metadata: v_metadata,
        };
        assert(r.fields() =~= fields_view(fs@));
        Some(r)
    }
}
/// One completion of a task by a user, with the rewards it earned. `proof_data` is JSON text.
pub struct UserTaskCompletion {
    pub id: u64,
    pub user_id: Identity,
    pub task_id: u64,
    pub completed_at: u64,
    pub tokens_earned: u32,
    pub points_earned: u32,
    pub completion_count: u32,
    pub proof_data: Option<String>,
    pub metadata: Option<Vec<(String, String)>>,
}
impl Record for UserTaskCompletion {
    open spec fn fields(&self) -> Seq<Field> {
        seq![
            Field::Nat(self.id),
            Field::Bytes(self.user_id@),
            Field::Nat(self.task_id),
            Field::Nat(self.completed_at),
            Field::Nat(self.tokens_earned as u64),
            Field::Nat(self.points_earned as u64),
            Field::Nat(self.completion_count as u64),
            opt_text(self.proof_data),
            opt_pairs(self.metadata),
        ]
    }

    fn to_fields(&self) -> (r: Vec<FieldVal>) {
        let r = vec![
            FieldVal::Nat(self.id),
            FieldVal::Bytes(copy_bytes(&self.user_id.bytes)),
            FieldVal::Nat(self.task_id),
            FieldVal::Nat(self.completed_at),
            FieldVal::Nat(self.tokens_earned as u64),
            FieldVal::Nat(self.points_earned as u64),
            FieldVal::Nat(self.completion_count as u64),
            opt_text_val(&self.proof_data),
            opt_pairs_val(&self.metadata),
        ];
        assert(fields_view(r@) =~= self.fields());
        r
    }

    fn from_fields(fs: &Vec<FieldVal>) -> (r: Option<Self>) {
        if fs.len() != 9 {
            proof {
                assert forall|x: Self| #[trigger] x.fields() != fields_view(fs@) by {
                    assert(x.fields().len() == 9);
                }
            }
            return None;
        }
        let v_id = match nat_at(fs, 0) {
            Some(v) => v,
            None => {
                return None;
            },
        };
        let v_user_id = match identity_at(fs, 1) {
            Some(v) => v,
            None => {
                return None;
            },
        };
        let v_task_id = match nat_at(fs, 2) {
            Some(v) => v,
            None => {
                return None;
            },
        };
        let v_completed_at = match nat_at(fs, 3) {
            Some(v) => v,
            None => {
                return None;
            },
        };
        let v_tokens_earned = match u32_at(fs, 4) {
            Some(v) => v,
            None => {
                return None;
            },
        };
        let v_points_earned = match u32_at(fs, 5) {
            Some(v) => v,
            None => {
                return None;
            },
        };
        let v_completion_count = match u32_at(fs, 6) {
            Some(v) => v,
            None => {
                return None;
            },
        };
        let v_proof_data = match opt_text_at(fs, 7) {
            Some(v) => v,
            None => {
                return None;
            },
        };
        let v_metadata = match opt_pairs_at(fs, 8) {
            Some(v) => v,
            None => {
                return None;
            },
        };
        let r = UserTaskCompletion {
            id: v_id,
            user_id: v_user_id,
            task_id: v_task_id,
            completed_at: v_completed_at,
            tokens_earned: v_tokens_earned,
            points_earned: v_points_earned,
            completion_count: v_completion_count,
            proof_data: v_proof_data,
            metadata: v_metadata,
        };
        assert(r.fields() =~= fields_view(fs@));
        Some(r)
    }
}
impl Task {
    /// The pairs of this record name each setting at most once.
    pub open spec fn wf(&self) -> bool {
        opt_names_unique(self.metadata)
    }
}

impl UserTaskCompletion {
    /// The pairs of this record name each setting at most once.
    pub open spec fn wf(&self) -> bool {
        opt_names_unique(self.metadata)
    }
}

} // verus!
