//! Connections between users and the requests that lead to them.
use crate::codec::{Field, FieldVal, fields_view};
use crate::record::{
    Identity, Record, copy_bytes, identity_at, nat_at, opt_nat, opt_nat_at, opt_nat_val,
    opt_text, opt_text_at, opt_text_val, text_at,
};
use vstd::prelude::*;

verus! {

/// A connection between two users; its status is "active" or "blocked".
pub struct UserConnection {
    pub id: u64,
    pub user1_id: Identity,
    pub user2_id: Identity,
    pub status: String,
    pub created_at: u64,
    pub updated_at: u64,
}
impl Record for UserConnection {
    open spec fn fields(&self) -> Seq<Field> {
        seq![
            Field::Nat(self.id),
            Field::Bytes(self.user1_id@),
            Field::Bytes(self.user2_id@),
            Field::Text(self.status@),
            Field::Nat(self.created_at),
            Field::Nat(self.updated_at),
        ]
    }

    fn to_fields(&self) -> (r: Vec<FieldVal>) {
        let r = vec![
            FieldVal::Nat(self.id),
            FieldVal::Bytes(copy_bytes(&self.user1_id.bytes)),
            FieldVal::Bytes(copy_bytes(&self.user2_id.bytes)),
            FieldVal::Text(self.status.clone()),
            FieldVal::Nat(self.created_at),
            FieldVal::Nat(self.updated_at),
        ];
        assert(fields_view(r@) =~= self.fields());
        r
    }

    fn from_fields(fs: &Vec<FieldVal>) -> (r: Option<Self>) {
        if fs.len() != 6 {
            proof {
                assert forall|x: Self| #[trigger] x.fields() != fields_view(fs@) by {
                    assert(x.fields().len() == 6);
                }
            }
            return None;
        }
        let v_id = match nat_at(fs, 0) {
            Some(v) => v,
            None => {
                return None;
            },
        };
        let v_user1_id = match identity_at(fs, 1) {
            Some(v) => v,
            None => {
                return None;
            },
        };
        let v_user2_id = match identity_at(fs, 2) {
            Some(v) => v,
            None => {
                return None;
            },
        };
        let v_status = match text_at(fs, 3) {
            Some(v) => v,
            None => {
                return None;
            },
        };
        let v_created_at = match nat_at(fs, 4) {
            Some(v) => v,
            None => {
                return None;
            },
        };
        let v_updated_at = match nat_at(fs, 5) {
            Some(v) => v,
            None => {
                return None;
            },
        };
        let r = UserConnection {
            id: v_id,
            user1_id: v_user1_id,
            user2_id: v_user2_id,
            status: v_status,
            created_at: v_created_at,
            updated_at: v_updated_at,
        };
        assert(r.fields() =~= fields_view(fs@));
        Some(r)
    }
}
/// A request from one user to connect with another; its status is "pending", "accepted" or "rejected".
pub struct ConnectionRequest {
    pub id: u64,
    pub sender_id: Identity,
    pub receiver_id: Identity,
    pub status: String,
    pub message: Option<String>,
    pub created_at: u64,
    pub updated_at: u64,
    pub responded_at: Option<u64>,
}
impl Record for ConnectionRequest {
    open spec fn fields(&self) -> Seq<Field> {
        seq![
            Field::Nat(self.id),
            Field::Bytes(self.sender_id@),
            Field::Bytes(self.receiver_id@),
            Field::Text(self.status@),
            opt_text(self.message),
            Field::Nat(self.created_at),
            Field::Nat(self.updated_at),
            opt_nat(self.responded_at),
        ]
    }

    fn to_fields(&self) -> (r: Vec<FieldVal>) {
        let r = vec![
            FieldVal::Nat(self.id),
            FieldVal::Bytes(copy_bytes(&self.sender_id.bytes)),
            FieldVal::Bytes(copy_bytes(&self.receiver_id.bytes)),
            FieldVal::Text(self.status.clone()),
            opt_text_val(&self.message),
            FieldVal::Nat(self.created_at),
            FieldVal::Nat(self.updated_at),
            opt_nat_val(self.responded_at),
        ];
        assert(fields_view(r@) =~= self.fields());
        r
    }

    fn from_fields(fs: &Vec<FieldVal>) -> (r: Option<Self>) {
        if fs.len() != 8 {
            proof {
                assert forall|x: Self| #[trigger] x.fields() != fields_view(fs@) by {
                    assert(x.fields().len() == 8);
                }
            }
            return None;
        }
        let v_id = match nat_at(fs, 0) {
            Some(v) => v,
            None => {
                return None;
            },
        };
        let v_sender_id = match identity_at(fs, 1) {
            Some(v) => v,
            None => {
                return None;
            },
        };
        let v_receiver_id = match identity_at(fs, 2) {
            Some(v) => v,
            None => {
                return None;
            },
        };
        let v_status = match text_at(fs, 3) {
            Some(v) => v,
            None => {
                return None;
            },
        };
        let v_message = match opt_text_at(fs, 4) {
            Some(v) => v,
            None => {
                return None;
            },
        };
        let v_created_at = match nat_at(fs, 5) {
            Some(v) => v,
            None => {
                return None;
            },
        };
        let v_updated_at = match nat_at(fs, 6) {
            Some(v) => v,
            None => {
                return None;
            },
        };
        let v_responded_at = match opt_nat_at(fs, 7) {
            Some(v) => v,
            None => {
                return None;
            },
        };
        let r = ConnectionRequest {
            id: v_id,
            sender_id: v_sender_id,
            receiver_id: v_receiver_id,
            status: v_status,
            message: v_message,
            created_at: v_created_at,
            updated_at: v_updated_at,
            responded_at: v_responded_at,
        };
        assert(r.fields() =~= fields_view(fs@));
        Some(r)
    }
}
} // verus!
