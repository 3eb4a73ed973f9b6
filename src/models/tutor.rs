//! Tutors and what belongs to them.
use crate::codec::{Field, FieldVal, fields_view};
use crate::record::{
    Identity, Nested, Record, copy_bytes, copy_pairs, copy_texts, flag, flag_at, flag_val,
    identity_at, names_unique, nat_at, nested_from, nested_list, opt_text, opt_text_at,
    opt_text_val, pairs_at, push_nested, text_at, texts_at,
};
use vstd::prelude::*;

verus! {

/// A tutor created by a user. `voice_settings` maps each setting name, held once, to its value.
pub struct Tutor {
    pub id: u64,
    pub public_id: String,
    pub user_id: Identity,
    pub name: String,
    pub description: String,
    pub teaching_style: String,
    pub personality: String,
    pub expertise: Vec<String>,
    pub knowledge_base: Vec<String>,
    pub is_pinned: bool,
    pub avatar_url: Option<String>,
    pub voice_id: Option<String>,
    pub voice_settings: Vec<(String, String)>,
    pub created_at: u64,
    pub updated_at: u64,
}
impl Record for Tutor {
    open spec fn fields(&self) -> Seq<Field> {
        seq![
            Field::Nat(self.id),
            Field::Text(self.public_id@),
            Field::Bytes(self.user_id@),
            Field::Text(self.name@),
            Field::Text(self.description@),
            Field::Text(self.teaching_style@),
            Field::Text(self.personality@),
            Field::Texts(self.expertise.deep_view()),
            Field::Texts(self.knowledge_base.deep_view()),
            flag(self.is_pinned),
            opt_text(self.avatar_url),
            opt_text(self.voice_id),
            Field::Pairs(self.voice_settings.deep_view()),
            Field::Nat(self.created_at),
            Field::Nat(self.updated_at),
        ]
    }

    fn to_fields(&self) -> (r: Vec<FieldVal>) {
        let r = vec![
            FieldVal::Nat(self.id),
            FieldVal::Text(self.public_id.clone()),
            FieldVal::Bytes(copy_bytes(&self.user_id.bytes)),
            FieldVal::Text(self.name.clone()),
            FieldVal::Text(self.description.clone()),
            FieldVal::Text(self.teaching_style.clone()),
            FieldVal::Text(self.personality.clone()),
            FieldVal::Texts(copy_texts(&self.expertise)),
            FieldVal::Texts(copy_texts(&self.knowledge_base)),
            flag_val(self.is_pinned),
            opt_text_val(&self.avatar_url),
            opt_text_val(&self.voice_id),
            FieldVal::Pairs(copy_pairs(&self.voice_settings)),
            FieldVal::Nat(self.created_at),
            FieldVal::Nat(self.updated_at),
        ];
        assert(fields_view(r@) =~= self.fields());
        r
    }

    fn from_fields(fs: &Vec<FieldVal>) -> (r: Option<Self>) {
        if fs.len() != 15 {
            proof {
                assert forall|x: Self| #[trigger] x.fields() != fields_view(fs@) by {
                    assert(x.fields().len() == 15);
                }
            }
            return None;
        }
        let v_id = match nat_at(fs, 0) {
            Some(v) => v,
            None => {
                return None;
            },
        };
        let v_public_id = match text_at(fs, 1) {
            Some(v) => v,
            None => {
                return None;
            },
        };
        let v_user_id = match identity_at(fs, 2) {
            Some(v) => v,
            None => {
                return None;
            },
        };
        let v_name = match text_at(fs, 3) {
            Some(v) => v,
            None => {
                return None;
            },
        };
        let v_description = match text_at(fs, 4) {
            Some(v) => v,
            None => {
                return None;
            },
        };
        let v_teaching_style = match text_at(fs, 5) {
            Some(v) => v,
            None => {
                return None;
            },
        };
        let v_personality = match text_at(fs, 6) {
            Some(v) => v,
            None => {
                return None;
            },
        };
        let v_expertise = match texts_at(fs, 7) {
            Some(v) => v,
            None => {
                return None;
            },
        };
        let v_knowledge_base = match texts_at(fs, 8) {
            Some(v) => v,
            None => {
                return None;
            },
        };
        let v_is_pinned = match flag_at(fs, 9) {
            Some(v) => v,
            None => {
                return None;
            },
        };
        let v_avatar_url = match opt_text_at(fs, 10) {
            Some(v) => v,
            None => {
                return None;
            },
        };
        let v_voice_id = match opt_text_at(fs, 11) {
            Some(v) => v,
            None => {
                return None;
            },
        };
        let v_voice_settings = match pairs_at(fs, 12) {
            Some(v) => v,
            None => {
                return None;
            },
        };
        let v_created_at = match nat_at(fs, 13) {
            Some(v) => v,
            None => {
                return None;
            },
        };
        let v_updated_at = match nat_at(fs, 14) {
            Some(v) => v,
            None => {
                return None;
            },
        };
        let r = Tutor {
            id: v_id,
            public_id: v_public_id,
            user_id: v_user_id,
            name: v_name,
            description: v_description,
            teaching_style: v_teaching_style,
            personality: v_personality,
            expertise: v_expertise,
            knowledge_base: v_knowledge_base,
            is_pinned: v_is_pinned,
            avatar_url: v_avatar_url,
            voice_id: v_voice_id,
            voice_settings: v_voice_settings,
            created_at: v_created_at,
            updated_at: v_updated_at,
        };
        assert(r.fields() =~= fields_view(fs@));
        Some(r)
    }
}
/// A conversation between a user and a tutor; its status is "active", "completed" or "archived".
pub struct TutorSession {
    pub id: u64,
    pub public_id: String,
    pub user_id: Identity,
    pub tutor_id: u64,
    pub topic: String,
    pub status: String,
    pub created_at: u64,
    pub updated_at: u64,
    pub messages: Vec<TutorMessage>,
}
/// One message of a tutor session; `sender` is "user" or "tutor".
pub struct TutorMessage {
    pub id: u64,
    pub sender: String,
    pub content: String,
    pub timestamp: u64,
    pub has_audio: bool,
}
/// A course that a tutor laid out in a session; `outline` is JSON text.
pub struct TutorCourse {
    pub id: u64,
    pub tutor_id: u64,
    pub session_id: u64,
    pub topic: String,
    pub outline: String,
    pub difficulty_level: String,
    pub estimated_duration: String,
    pub created_at: u64,
    pub modules: Vec<CourseModule>,
}
/// One module of a tutor course; its status is "pending" or "completed".
pub struct CourseModule {
    pub id: u64,
    pub title: String,
    pub description: String,
    pub order: u32,
    pub content: Option<String>,
    pub status: String,
}
/// A user's rating of a tutor. `rating_bits` holds the bits of the rating as an IEEE-754 single.
pub struct TutorRating {
    pub id: u64,
    pub user_id: Identity,
    pub tutor_id: u64,
    pub rating_bits: u32,
    pub comment: Option<String>,
    pub created_at: u64,
}
/// A file fed to a tutor's knowledge base. `processing_time_bits` holds the bits of the processing time as an IEEE-754 double.
pub struct KnowledgeBaseFile {
    pub id: u64,
    pub public_id: String,
    pub tutor_id: u64,
    pub user_id: Identity,
    pub file_name: String,
    pub file_size: u64,
    pub file_type: String,
    pub chunks_processed: u32,
    pub processing_time_bits: u64,
    pub status: String,
    pub error_message: Option<String>,
    pub created_at: u64,
    pub updated_at: u64,
}
impl Record for TutorMessage {
    open spec fn fields(&self) -> Seq<Field> {
        seq![
            Field::Nat(self.id),
            Field::Text(self.sender@),
            Field::Text(self.content@),
            Field::Nat(self.timestamp),
            flag(self.has_audio),
        ]
    }

    fn to_fields(&self) -> (r: Vec<FieldVal>) {
        let r = vec![
            FieldVal::Nat(self.id),
            FieldVal::Text(self.sender.clone()),
            FieldVal::Text(self.content.clone()),
            FieldVal::Nat(self.timestamp),
            flag_val(self.has_audio),
        ];
        assert(fields_view(r@) =~= self.fields());
        r
    }

    fn from_fields(fs: &Vec<FieldVal>) -> (r: Option<Self>) {
        if fs.len() != 5 {
            proof {
                assert forall|x: Self| #[trigger] x.fields() != fields_view(fs@) by {
                    assert(x.fields().len() == 5);
                }
            }
            return None;
        }
        let v_id = match nat_at(fs, 0) {
            Some(v) => v,
            None => {
                return None;
            },
        };
        let v_sender = match text_at(fs, 1) {
            Some(v) => v,
            None => {
                return None;
            },
        };
        let v_content = match text_at(fs, 2) {
            Some(v) => v,
            None => {
                return None;
            },
        };
        let v_timestamp = match nat_at(fs, 3) {
            Some(v) => v,
            None => {
                return None;
            },
        };
        let v_has_audio = match flag_at(fs, 4) {
            Some(v) => v,
            None => {
                return None;
            },
        };
        let r = TutorMessage {
            id: v_id,
            sender: v_sender,
            content: v_content,
            timestamp: v_timestamp,
            has_audio: v_has_audio,
        };
        assert(r.fields() =~= fields_view(fs@));
        Some(r)
    }
}
impl Nested for TutorMessage {
    open spec fn width() -> nat {
        5
    }

    proof fn lemma_width(x: Self) {
    }

    proof fn lemma_width_positive() {
    }

    fn width_exec() -> (r: usize) {
        5
    }
}

impl Record for TutorSession {
    open spec fn fields(&self) -> Seq<Field> {
        seq![
            Field::Nat(self.id),
            Field::Text(self.public_id@),
            Field::Bytes(self.user_id@),
            Field::Nat(self.tutor_id),
            Field::Text(self.topic@),
            Field::Text(self.status@),
            Field::Nat(self.created_at),
            Field::Nat(self.updated_at),
        ] + nested_list(self.messages@)
    }

    fn to_fields(&self) -> (r: Vec<FieldVal>) {
        let mut r = vec![
            FieldVal::Nat(self.id),
            FieldVal::Text(self.public_id.clone()),
            FieldVal::Bytes(copy_bytes(&self.user_id.bytes)),
            FieldVal::Nat(self.tutor_id),
            FieldVal::Text(self.topic.clone()),
            FieldVal::Text(self.status.clone()),
            FieldVal::Nat(self.created_at),
            FieldVal::Nat(self.updated_at),
        ];
        push_nested(&mut r, &self.messages);
        assert(fields_view(r@) =~= self.fields());
        r
    }

    fn from_fields(fs: &Vec<FieldVal>) -> (r: Option<Self>) {
        if fs.len() < 9 {
            proof {
                assert forall|x: Self| #[trigger] x.fields() != fields_view(fs@) by {
                    assert(x.fields().len() >= 9);
                }
            }
            return None;
        }
        let v_id = match nat_at(fs, 0) {
            Some(v) => v,
            None => {
                proof {
                    assert forall|x: Self| #[trigger] x.fields() != fields_view(fs@) by {
                        assert(x.fields()[0] == Field::Nat(x.id));
                    }
                }
                return None;
            },
        };
        let v_public_id = match text_at(fs, 1) {
            Some(v) => v,
            None => {
                proof {
                    assert forall|x: Self| #[trigger] x.fields() != fields_view(fs@) by {
                        assert(x.fields()[1] == Field::Text(x.public_id@));
                    }
                }
                return None;
            },
        };
        let v_user_id = match identity_at(fs, 2) {
            Some(v) => v,
            None => {
                proof {
                    assert forall|x: Self| #[trigger] x.fields() != fields_view(fs@) by {
                        assert(x.fields()[2] == Field::Bytes(x.user_id@));
                    }
                }
                return None;
            },
        };
        let v_tutor_id = match nat_at(fs, 3) {
            Some(v) => v,
            None => {
                proof {
                    assert forall|x: Self| #[trigger] x.fields() != fields_view(fs@) by {
                        assert(x.fields()[3] == Field::Nat(x.tutor_id));
                    }
                }
                return None;
            },
        };
        let v_topic = match text_at(fs, 4) {
            Some(v) => v,
            None => {
                proof {
                    assert forall|x: Self| #[trigger] x.fields() != fields_view(fs@) by {
                        assert(x.fields()[4] == Field::Text(x.topic@));
                    }
                }
                return None;
            },
        };
        let v_status = match text_at(fs, 5) {
            Some(v) => v,
            None => {
                proof {
                    assert forall|x: Self| #[trigger] x.fields() != fields_view(fs@) by {
                        assert(x.fields()[5] == Field::Text(x.status@));
                    }
                }
                return None;
            },
        };
        let v_created_at = match nat_at(fs, 6) {
            Some(v) => v,
            None => {
                proof {
                    assert forall|x: Self| #[trigger] x.fields() != fields_view(fs@) by {
                        assert(x.fields()[6] == Field::Nat(x.created_at));
                    }
                }
                return None;
            },
        };
        let v_updated_at = match nat_at(fs, 7) {
            Some(v) => v,
            None => {
                proof {
                    assert forall|x: Self| #[trigger] x.fields() != fields_view(fs@) by {
                        assert(x.fields()[7] == Field::Nat(x.updated_at));
                    }
                }
                return None;
            },
        };
        let v_messages = match nested_from::<TutorMessage>(fs, 8) {
            Some(v) => v,
            None => {
                proof {
                    assert forall|x: Self| #[trigger] x.fields() != fields_view(fs@) by {
                        if x.fields() == fields_view(fs@) {
                            assert(fields_view(fs@).skip(8) =~= nested_list(x.messages@));
                        }
                    }
                }
                return None;
            },
        };
        let r = TutorSession {
            id: v_id,
            public_id: v_public_id,
            user_id: v_user_id,
            tutor_id: v_tutor_id,
            topic: v_topic,
            status: v_status,
            created_at: v_created_at,
            updated_at: v_updated_at,
            messages: v_messages,
        };
        assert(fields_view(fs@) =~= fields_view(fs@).take(8) + fields_view(fs@).skip(8));
        assert(r.fields() =~= fields_view(fs@));
        Some(r)
    }
}
impl Tutor {
    /// The pairs of this record name each setting at most once.
    pub open spec fn wf(&self) -> bool {
        names_unique(self.voice_settings.deep_view())
    }
}

} // verus!
