//! Study groups and their members.
use crate::codec::{Field, FieldVal, fields_view};
use crate::record::{
    Identity, Record, copy_bytes, flag, flag_at, flag_val, identity_at, nat_at, opt_nat,
    opt_nat_at, opt_nat_val, opt_text, opt_text_at, opt_text_val, text_at, u32_at,
};
use vstd::prelude::*;

verus! {

/// A study group; `learning_level` is "beginner", "intermediate" or "advanced".
pub struct StudyGroup {
    pub id: u64,
    pub public_id: String,
    pub name: String,
    pub description: Option<String>,
    pub creator_id: Identity,
    pub topic_id: Option<u64>,
    pub is_private: bool,
    pub max_members: u32,
    pub learning_level: String,
    pub meeting_frequency: Option<String>,
    pub goals: Option<String>,
    pub created_at: u64,
    pub updated_at: u64,
}
impl Record for StudyGroup {
    open spec fn fields(&self) -> Seq<Field> {
        seq![
            Field::Nat(self.id),
            Field::Text(self.public_id@),
            Field::Text(self.name@),
            opt_text(self.description),
            Field::Bytes(self.creator_id@),
            opt_nat(self.topic_id),
            flag(self.is_private),
            Field::Nat(self.max_members as u64),
            Field::Text(self.learning_level@),
            opt_text(self.meeting_frequency),
            opt_text(self.goals),
            Field::Nat(self.created_at),
            Field::Nat(self.updated_at),
        ]
    }

    fn to_fields(&self) -> (r: Vec<FieldVal>) {
        let r = vec![
            FieldVal::Nat(self.id),
            FieldVal::Text(self.public_id.clone()),
            FieldVal::Text(self.name.clone()),
            opt_text_val(&self.description),
            FieldVal::Bytes(copy_bytes(&self.creator_id.bytes)),
            opt_nat_val(self.topic_id),
            flag_val(self.is_private),
            FieldVal::Nat(self.max_members as u64),
            FieldVal::Text(self.learning_level.clone()),
            opt_text_val(&self.meeting_frequency),
            opt_text_val(&self.goals),
            FieldVal::Nat(self.created_at),
            FieldVal::Nat(self.updated_at),
        ];
        assert(fields_view(r@) =~= self.fields());
        r
    }

    fn from_fields(fs: &Vec<FieldVal>) -> (r: Option<Self>) {
        if fs.len() != 13 {
            proof {
                assert forall|x: Self| #[trigger] x.fields() != fields_view(fs@) by {
                    assert(x.fields().len() == 13);
                }
            }
            return None;
        }
        let v_id = match nat_at(fs, 0) {
            Some(v) => v,
            None => {
                return None;
            },
        };
        let v_public_id = match text_at(fs, 1) {
            Some(v) => v,
            None => {
                return None;
            },
        };
        let v_name = match text_at(fs, 2) {
            Some(v) => v,
            None => {
                return None;
            },
        };
        let v_description = match opt_text_at(fs, 3) {
            Some(v) => v,
            None => {
                return None;
            },
        };
        let v_creator_id = match identity_at(fs, 4) {
            Some(v) => v,
            None => {
                return None;
            },
        };
        let v_topic_id = match opt_nat_at(fs, 5) {
            Some(v) => v,
            None => {
                return None;
            },
        };
        let v_is_private = match flag_at(fs, 6) {
            Some(v) => v,
            None => {
                return None;
            },
        };
        let v_max_members = match u32_at(fs, 7) {
            Some(v) => v,
            None => {
                return None;
            },
        };
        let v_learning_level = match text_at(fs, 8) {
            Some(v) => v,
            None => {
                return None;
            },
        };
        let v_meeting_frequency = match opt_text_at(fs, 9) {
            Some(v) => v,
            None => {
                return None;
            },
        };
        let v_goals = match opt_text_at(fs, 10) {
            Some(v) => v,
            None => {
                return None;
            },
        };
        let v_created_at = match nat_at(fs, 11) {
            Some(v) => v,
            None => {
                return None;
            },
        };
        let v_updated_at = match nat_at(fs, 12) {
            Some(v) => v,
            None => {
                return None;
            },
        };
        let r = StudyGroup {
            id: v_id,
            public_id: v_public_id,
            name: v_name,
            description: v_description,
            creator_id: v_creator_id,
            topic_id: v_topic_id,
            is_private: v_is_private,
            max_members: v_max_members,
            learning_level: v_learning_level,
            meeting_frequency: v_meeting_frequency,
            goals: v_goals,
            created_at: v_created_at,
            updated_at: v_updated_at,
        };
        assert(r.fields() =~= fields_view(fs@));
        Some(r)
    }
}
/// A user's membership of a study group; `role` is "member", "admin" or "moderator", `status` is "active", "inactive" or "banned".
pub struct GroupMembership {
    pub id: u64,
    pub user_id: Identity,
    pub group_id: u64,
    pub role: String,
    pub status: String,
    pub joined_at: u64,
    pub contributions: u32,
    pub last_active_at: Option<u64>,
}
impl Record for GroupMembership {
    open spec fn fields(&self) -> Seq<Field> {
        seq![
            Field::Nat(self.id),
            Field::Bytes(self.user_id@),
            Field::Nat(self.group_id),
            Field::Text(self.role@),
            Field::Text(self.status@),
            Field::Nat(self.joined_at),
            Field::Nat(self.contributions as u64),
            opt_nat(self.last_active_at),
        ]
    }

    fn to_fields(&self) -> (r: Vec<FieldVal>) {
        let r = vec![
            FieldVal::Nat(self.id),
            FieldVal::Bytes(copy_bytes(&self.user_id.bytes)),
            FieldVal::Nat(self.group_id),
            FieldVal::Text(self.role.clone()),
            FieldVal::Text(self.status.clone()),
            FieldVal::Nat(self.joined_at),
            FieldVal::Nat(self.contributions as u64),
            opt_nat_val(self.last_active_at),
        ];
        assert(fields_view(r@) =~= self.fields());
        r
    }

    fn from_fields(fs: &Vec<FieldVal>) -> (r: Option<Self>) {
        if fs.len() != 8 {
            proof {
                assert forall|x: Self| #[trigger] x.fields() != fields_view(fs@) by {
                    assert(x.fields().len() == 8);
                }
            }
            return None;
        }
        let v_id = match nat_at(fs, 0) {
            Some(v) => v,
            None => {
                return None;
            },
        };
        let v_user_id = match identity_at(fs, 1) {
            Some(v) => v,
            None => {
                return None;
            },
        };
        let v_group_id = match nat_at(fs, 2) {
            Some(v) => v,
            None => {
                return None;
            },
        };
        let v_role = match text_at(fs, 3) {
            Some(v) => v,
            None => {
                return None;
            },
        };
        let v_status = match text_at(fs, 4) {
            Some(v) => v,
            None => {
                return None;
            },
        };
        let v_joined_at = match nat_at(fs, 5) {
            Some(v) => v,
            None => {
                return None;
            },
        };
        let v_contributions = match u32_at(fs, 6) {
            Some(v) => v,
            None => {
                return None;
            },
        };
        let v_last_active_at = match opt_nat_at(fs, 7) {
            Some(v) => v,
            None => {
                return None;
            },
        };
        let r = GroupMembership {
            id: v_id,
            user_id: v_user_id,
            group_id: v_group_id,
            role: v_role,
            status: v_status,
            joined_at: v_joined_at,
            contributions: v_contributions,
            last_active_at: v_last_active_at,
        };
        assert(r.fields() =~= fields_view(fs@));
        Some(r)
    }
}
/// A subject that study groups can be about.
pub struct Topic {
    pub id: u64,
    pub name: String,
    pub description: Option<String>,
    pub parent_id: Option<u64>,
    pub difficulty_level: Option<String>,
    pub keywords: Option<String>,
    pub created_at: u64,
}
} // verus!
