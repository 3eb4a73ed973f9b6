//! Learning paths.
use crate::codec::{Field, FieldVal, fields_view};
use crate::record::{
    Nested, Record, copy_texts, nat_at, nested_from, nested_list, opt_text, opt_text_at,
    opt_text_val, push_nested, text_at, texts_at, u32_at,
};
use vstd::prelude::*;

verus! {

/// A sequence of modules on one subject.
pub struct LearningPath {
    pub id: u64,
    pub title: String,
    pub description: String,
    pub level: String,
    pub duration: String,
    pub thumbnail: Option<String>,
    pub tags: Vec<String>,
    pub created_at: u64,
    pub updated_at: u64,
    pub modules: Vec<LearningPathModule>,
}
/// One module of a learning path: a video, a reading, a quiz. `content` is JSON text.
pub struct LearningPathModule {
    pub id: u64,
    pub title: String,
    pub description: String,
    pub duration: String,
    pub module_type: String,
    pub order: u32,
    pub content: String,
    pub resources: Vec<String>,
}
impl Record for LearningPathModule {
    open spec fn fields(&self) -> Seq<Field> {
        seq![
            Field::Nat(self.id),
            Field::Text(self.title@),
            Field::Text(self.description@),
            Field::Text(self.duration@),
            Field::Text(self.module_type@),
            Field::Nat(self.order as u64),
            Field::Text(self.content@),
            Field::Texts(self.resources.deep_view()),
        ]
    }

    fn to_fields(&self) -> (r: Vec<FieldVal>) {
        let r = vec![
            FieldVal::Nat(self.id),
            FieldVal::Text(self.title.clone()),
            FieldVal::Text(self.description.clone()),
            FieldVal::Text(self.duration.clone()),
            FieldVal::Text(self.module_type.clone()),
            FieldVal::Nat(self.order as u64),
            FieldVal::Text(self.content.clone()),
            FieldVal::Texts(copy_texts(&self.resources)),
        ];
        assert(fields_view(r@) =~= self.fields());
        r
    }

    fn from_fields(fs: &Vec<FieldVal>) -> (r: Option<Self>) {
        if fs.len() != 8 {
            proof {
                assert forall|x: Self| #[trigger] x.fields() != fields_view(fs@) by {
                    assert(x.fields().len() == 8);
                }
            }
            return None;
        }
        let v_id = match nat_at(fs, 0) {
            Some(v) => v,
            None => {
                return None;
            },
        };
        let v_title = match text_at(fs, 1) {
            Some(v) => v,
            None => {
                return None;
            },
        };
        let v_description = match text_at(fs, 2) {
            Some(v) => v,
            None => {
                return None;
            },
        };
        let v_duration = match text_at(fs, 3) {
            Some(v) => v,
            None => {
                return None;
            },
        };
        let v_module_type = match text_at(fs, 4) {
            Some(v) => v,
            None => {
                return None;
            },
        };
        let v_order = match u32_at(fs, 5) {
            Some(v) => v,
            None => {
                return None;
            },
        };
        let v_content = match text_at(fs, 6) {
            Some(v) => v,
            None => {
                return None;
            },
        };
        let v_resources = match texts_at(fs, 7) {
            Some(v) => v,
            None => {
                return None;
            },
        };
        let r = LearningPathModule {
            id: v_id,
            title: v_title,
            description: v_description,
            duration: v_duration,
            module_type: v_module_type,
            order: v_order,
            content: v_content,
            resources: v_resources,
        };
        assert(r.fields() =~= fields_view(fs@));
        Some(r)
    }
}
impl Nested for LearningPathModule {
    open spec fn width() -> nat {
        8
    }

    proof fn lemma_width(x: Self) {
    }

    proof fn lemma_width_positive() {
    }

    fn width_exec() -> (r: usize) {
        8
    }
}

impl Record for LearningPath {
    open spec fn fields(&self) -> Seq<Field> {
        seq![
            Field::Nat(self.id),
            Field::Text(self.title@),
            Field::Text(self.description@),
            Field::Text(self.level@),
            Field::Text(self.duration@),
            opt_text(self.thumbnail),
            Field::Texts(self.tags.deep_view()),
            Field::Nat(self.created_at),
            Field::Nat(self.updated_at),
        ] + nested_list(self.modules@)
    }

    fn to_fields(&self) -> (r: Vec<FieldVal>) {
        let mut r = vec![
            FieldVal::Nat(self.id),
            FieldVal::Text(self.title.clone()),
            FieldVal::Text(self.description.clone()),
            FieldVal::Text(self.level.clone()),
            FieldVal::Text(self.duration.clone()),
            opt_text_val(&self.thumbnail),
            FieldVal::Texts(copy_texts(&self.tags)),
            FieldVal::Nat(self.created_at),
            FieldVal::Nat(self.updated_at),
        ];
        push_nested(&mut r, &self.modules);
        assert(fields_view(r@) =~= self.fields());
        r
    }

    fn from_fields(fs: &Vec<FieldVal>) -> (r: Option<Self>) {
        if fs.len() < 10 {
            proof {
                assert forall|x: Self| #[trigger] x.fields() != fields_view(fs@) by {
                    assert(x.fields().len() >= 10);
                }
            }
            return None;
        }
        let v_id = match nat_at(fs, 0) {
            Some(v) => v,
            None => {
                proof {
                    assert forall|x: Self| #[trigger] x.fields() != fields_view(fs@) by {
                        assert(x.fields()[0] == Field::Nat(x.id));
                    }
                }
                return None;
            },
        };
        let v_title = match text_at(fs, 1) {
            Some(v) => v,
            None => {
                proof {
                    assert forall|x: Self| #[trigger] x.fields() != fields_view(fs@) by {
                        assert(x.fields()[1] == Field::Text(x.title@));
                    }
                }
                return None;
            },
        };
        let v_description = match text_at(fs, 2) {
            Some(v) => v,
            None => {
                proof {
                    assert forall|x: Self| #[trigger] x.fields() != fields_view(fs@) by {
                        assert(x.fields()[2] == Field::Text(x.description@));
                    }
                }
                return None;
            },
        };
        let v_level = match text_at(fs, 3) {
            Some(v) => v,
            None => {
                proof {
                    assert forall|x: Self| #[trigger] x.fields() != fields_view(fs@) by {
                        assert(x.fields()[3] == Field::Text(x.level@));
                    }
                }
                return None;
            },
        };
        let v_duration = match text_at(fs, 4) {
            Some(v) => v,
            None => {
                proof {
                    assert forall|x: Self| #[trigger] x.fields() != fields_view(fs@) by {
                        assert(x.fields()[4] == Field::Text(x.duration@));
                    }
                }
                return None;
            },
        };
        let v_thumbnail = match opt_text_at(fs, 5) {
            Some(v) => v,
            None => {
                proof {
                    assert forall|x: Self| #[trigger] x.fields() != fields_view(fs@) by {
                        assert(x.fields()[5] == opt_text(x.thumbnail));
                    }
                }
                return None;
            },
        };
        let v_tags = match texts_at(fs, 6) {
            Some(v) => v,
            None => {
                proof {
                    assert forall|x: Self| #[trigger] x.fields() != fields_view(fs@) by {
                        assert(x.fields()[6] == Field::Texts(x.tags.deep_view()));
                    }
                }
                return None;
            },
        };
        let v_created_at = match nat_at(fs, 7) {
            Some(v) => v,
            None => {
                proof {
                    assert forall|x: Self| #[trigger] x.fields() != fields_view(fs@) by {
                        assert(x.fields()[7] == Field::Nat(x.created_at));
                    }
                }
                return None;
            },
        };
        let v_updated_at = match nat_at(fs, 8) {
            Some(v) => v,
            None => {
                proof {
                    assert forall|x: Self| #[trigger] x.fields() != fields_view(fs@) by {
                        assert(x.fields()[8] == Field::Nat(x.updated_at));
                    }
                }
                return None;
            },
        };
        let v_modules = match nested_from::<LearningPathModule>(fs, 9) {
            Some(v) => v,
            None => {
                proof {
                    assert forall|x: Self| #[trigger] x.fields() != fields_view(fs@) by {
                        if x.fields() == fields_view(fs@) {
                            assert(fields_view(fs@).skip(9) =~= nested_list(x.modules@));
                        }
                    }
                }
                return None;
            },
        };
        let r = LearningPath {
            id: v_id,
            title: v_title,
            description: v_description,
            level: v_level,
            duration: v_duration,
            thumbnail: v_thumbnail,
            tags: v_tags,
            created_at: v_created_at,
            updated_at: v_updated_at,
            modules: v_modules,
        };
        assert(fields_view(fs@) =~= fields_view(fs@).take(9) + fields_view(fs@).skip(9));
        assert(r.fields() =~= fields_view(fs@));
        Some(r)
    }
}
} // verus!
