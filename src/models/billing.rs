//! Subscription plans, subscriptions and payments.
use crate::codec::{Field, FieldVal, fields_view};
use crate::record::{
    Identity, Nested, Record, copy_bytes, copy_texts, flag, flag_at, flag_val, identity_at,
    nat_at, nested_from, nested_list, opt_names_unique, opt_nat, opt_nat_at, opt_nat_val,
    opt_pairs, opt_pairs_at, opt_pairs_val, opt_text, opt_text_at, opt_text_val, push_nested,
    text_at, texts_at, u32_at,
};
use vstd::prelude::*;

verus! {

/// A plan users can subscribe to; `price_naira` is in kobo.
pub struct SubscriptionPlan {
    pub id: u64,
    pub name: String,
    pub price_naira: u64,
    pub billing_cycle: String,
    pub features: Vec<String>,
    pub limits: Vec<PlanLimit>,
    pub paystack_plan_code: Option<String>,
    pub is_active: bool,
    pub created_at: u64,
}
/// A user's subscription to a plan; its status is "active", "cancelled", "expired" or "failed".
pub struct UserSubscription {
    pub id: u64,
    pub user_id: Identity,
    pub plan_id: u64,
    pub paystack_customer_code: Option<String>,
    pub paystack_subscription_code: Option<String>,
    pub paystack_email_token: Option<String>,
    pub status: String,
    pub start_date: u64,
    pub end_date: Option<u64>,
    pub next_payment_date: Option<u64>,
    pub amount_naira: u64,
    pub currency: String,
    pub auto_renew: bool,
    pub created_at: u64,
    pub updated_at: u64,
    pub cancelled_at: Option<u64>,
}
impl Record for UserSubscription {
    open spec fn fields(&self) -> Seq<Field> {
        seq![
            Field::Nat(self.id),
            Field::Bytes(self.user_id@),
            Field::Nat(self.plan_id),
            opt_text(self.paystack_customer_code),
            opt_text(self.paystack_subscription_code),
            opt_text(self.paystack_email_token),
            Field::Text(self.status@),
            Field::Nat(self.start_date),
            opt_nat(self.end_date),
            opt_nat(self.next_payment_date),
            Field::Nat(self.amount_naira),
            Field::Text(self.currency@),
            flag(self.auto_renew),
            Field::Nat(self.created_at),
            Field::Nat(self.updated_at),
            opt_nat(self.cancelled_at),
        ]
    }

    fn to_fields(&self) -> (r: Vec<FieldVal>) {
        let r = vec![
            FieldVal::Nat(self.id),
            FieldVal::Bytes(copy_bytes(&self.user_id.bytes)),
            FieldVal::Nat(self.plan_id),
            opt_text_val(&self.paystack_customer_code),
            opt_text_val(&self.paystack_subscription_code),
            opt_text_val(&self.paystack_email_token),
            FieldVal::Text(self.status.clone()),
            FieldVal::Nat(self.start_date),
            opt_nat_val(self.end_date),
            opt_nat_val(self.next_payment_date),
            FieldVal::Nat(self.amount_naira),
            FieldVal::Text(self.currency.clone()),
            flag_val(self.auto_renew),
            FieldVal::Nat(self.created_at),
            FieldVal::Nat(self.updated_at),
            opt_nat_val(self.cancelled_at),
        ];
        assert(fields_view(r@) =~= self.fields());
        r
    }

    fn from_fields(fs: &Vec<FieldVal>) -> (r: Option<Self>) {
        if fs.len() != 16 {
            proof {
                assert forall|x: Self| #[trigger] x.fields() != fields_view(fs@) by {
                    assert(x.fields().len() == 16);
                }
            }
            return None;
        }
        let v_id = match nat_at(fs, 0) {
            Some(v) => v,
            None => {
                return None;
            },
        };
        let v_user_id = match identity_at(fs, 1) {
            Some(v) => v,
            None => {
                return None;
            },
        };
        let v_plan_id = match nat_at(fs, 2) {
            Some(v) => v,
            None => {
                return None;
            },
        };
        let v_paystack_customer_code = match opt_text_at(fs, 3) {
            Some(v) => v,
            None => {
                return None;
            },
        };
        let v_paystack_subscription_code = match opt_text_at(fs, 4) {
            Some(v) => v,
            None => {
                return None;
            },
        };
        let v_paystack_email_token = match opt_text_at(fs, 5) {
            Some(v) => v,
            None => {
                return None;
            },
        };
        let v_status = match text_at(fs, 6) {
            Some(v) => v,
            None => {
                return None;
            },
        };
        let v_start_date = match nat_at(fs, 7) {
            Some(v) => v,
            None => {
                return None;
            },
        };
        let v_end_date = match opt_nat_at(fs, 8) {
            Some(v) => v,
            None => {
                return None;
            },
        };
        let v_next_payment_date = match opt_nat_at(fs, 9) {
            Some(v) => v,
            None => {
                return None;
            },
        };
        let v_amount_naira = match nat_at(fs, 10) {
            Some(v) => v,
            None => {
                return None;
            },
        };
        let v_currency = match text_at(fs, 11) {
            Some(v) => v,
            None => {
                return None;
            },
        };
        let v_auto_renew = match flag_at(fs, 12) {
            Some(v) => v,
            None => {
                return None;
            },
        };
        let v_created_at = match nat_at(fs, 13) {
            Some(v) => v,
            None => {
                return None;
            },
        };
        let v_updated_at = match nat_at(fs, 14) {
            Some(v) => v,
            None => {
                return None;
            },
        };
        let v_cancelled_at = match opt_nat_at(fs, 15) {
            Some(v) => v,
            None => {
                return None;
            },
        };
        let r = UserSubscription {
            id: v_id,
            user_id: v_user_id,
            plan_id: v_plan_id,
            paystack_customer_code: v_paystack_customer_code,
            paystack_subscription_code: v_paystack_subscription_code,
            paystack_email_token: v_paystack_email_token,
            status: v_status,
            start_date: v_start_date,
            end_date: v_end_date,
            next_payment_date: v_next_payment_date,
            amount_naira: v_amount_naira,
            currency: v_currency,
            auto_renew: v_auto_renew,
            created_at: v_created_at,
            updated_at: v_updated_at,
            cancelled_at: v_cancelled_at,
        };
        assert(r.fields() =~= fields_view(fs@));
        Some(r)
    }
}
/// One payment; its status is "pending", "success", "failed" or "abandoned".
pub struct PaymentTransaction {
    pub id: u64,
    pub user_id: Identity,
    pub subscription_id: Option<u64>,
    pub paystack_reference: String,
    pub paystack_access_code: Option<String>,
    pub paystack_transaction_id: Option<String>,
    pub amount_naira: u64,
    pub currency: String,
    pub status: String,
    pub payment_method: Option<String>,
    pub description: Option<String>,
    pub payment_metadata: Option<Vec<(String, String)>>,
    pub created_at: u64,
    pub paid_at: Option<u64>,
}
impl Record for PaymentTransaction {
    open spec fn fields(&self) -> Seq<Field> {
        seq![
            Field::Nat(self.id),
            Field::Bytes(self.user_id@),
            opt_nat(self.subscription_id),
            Field::Text(self.paystack_reference@),
            opt_text(self.paystack_access_code),
            opt_text(self.paystack_transaction_id),
            Field::Nat(self.amount_naira),
            Field::Text(self.currency@),
            Field::Text(self.status@),
            opt_text(self.payment_method),
            opt_text(self.description),
            opt_pairs(self.payment_metadata),
            Field::Nat(self.created_at),
            opt_nat(self.paid_at),
        ]
    }

    fn to_fields(&self) -> (r: Vec<FieldVal>) {
        let r = vec![
            FieldVal::Nat(self.id),
            FieldVal::Bytes(copy_bytes(&self.user_id.bytes)),
            opt_nat_val(self.subscription_id),
            FieldVal::Text(self.paystack_reference.clone()),
            opt_text_val(&self.paystack_access_code),
            opt_text_val(&self.paystack_transaction_id),
            FieldVal::Nat(self.amount_naira),
            FieldVal::Text(self.currency.clone()),
            FieldVal::Text(self.status.clone()),
            opt_text_val(&self.payment_method),
            opt_text_val(&self.description),
            opt_pairs_val(&self.payment_metadata),
            FieldVal::Nat(self.created_at),
            opt_nat_val(self.paid_at),
        ];
        assert(fields_view(r@) =~= self.fields());
        r
    }

    fn from_fields(fs: &Vec<FieldVal>) -> (r: Option<Self>) {
        if fs.len() != 14 {
            proof {
                assert forall|x: Self| #[trigger] x.fields() != fields_view(fs@) by {
                    assert(x.fields().len() == 14);
                }
            }
            return None;
        }
        let v_id = match nat_at(fs, 0) {
            Some(v) => v,
            None => {
                return None;
            },
        };
        let v_user_id = match identity_at(fs, 1) {
            Some(v) => v,
            None => {
                return None;
            },
        };
        let v_subscription_id = match opt_nat_at(fs, 2) {
            Some(v) => v,
            None => {
                return None;
            },
        };
        let v_paystack_reference = match text_at(fs, 3) {
            Some(v) => v,
            None => {
                return None;
            },
        };
        let v_paystack_access_code = match opt_text_at(fs, 4) {
            Some(v) => v,
            None => {
                return None;
            },
        };
        let v_paystack_transaction_id = match opt_text_at(fs, 5) {
            Some(v) => v,
            None => {
                return None;
            },
        };
        let v_amount_naira = match nat_at(fs, 6) {
            Some(v) => v,
            None => {
                return None;
            },
        };
        let v_currency = match text_at(fs, 7) {
            Some(v) => v,
            None => {
                return None;
            },
        };
        let v_status = match text_at(fs, 8) {
            Some(v) => v,
            None => {
                return None;
            },
        };
        let v_payment_method = match opt_text_at(fs, 9) {
            Some(v) => v,
            None => {
                return None;
            },
        };
        let v_description = match opt_text_at(fs, 10) {
            Some(v) => v,
            None => {
                return None;
            },
        };
        let v_payment_metadata = match opt_pairs_at(fs, 11) {
            Some(v) => v,
            None => {
                return None;
            },
        };
        let v_created_at = match nat_at(fs, 12) {
            Some(v) => v,
            None => {
                return None;
            },
        };
        let v_paid_at = match opt_nat_at(fs, 13) {
            Some(v) => v,
            None => {
                return None;
            },
        };
        let r = PaymentTransaction {
            id: v_id,
            user_id: v_user_id,
            subscription_id: v_subscription_id,
            paystack_reference: v_paystack_reference,
            paystack_access_code: v_paystack_access_code,
            paystack_transaction_id: v_paystack_transaction_id,
            amount_naira: v_amount_naira,
            currency: v_currency,
            status: v_status,
            payment_method: v_payment_method,
            description: v_description,
            payment_metadata: v_payment_metadata,
            created_at: v_created_at,
            paid_at: v_paid_at,
        };
        assert(r.fields() =~= fields_view(fs@));
        Some(r)
    }
}
/// One limit of a plan: its name and its value.
pub struct PlanLimit {
    pub name: String,
    pub value: u32,
}
impl Record for PlanLimit {
    open spec fn fields(&self) -> Seq<Field> {
        seq![
            Field::Text(self.name@),
            Field::Nat(self.value as u64),
        ]
    }

    fn to_fields(&self) -> (r: Vec<FieldVal>) {
        let r = vec![
            FieldVal::Text(self.name.clone()),
            FieldVal::Nat(self.value as u64),
        ];
        assert(fields_view(r@) =~= self.fields());
        r
    }

    fn from_fields(fs: &Vec<FieldVal>) -> (r: Option<Self>) {
        if fs.len() != 2 {
            proof {
                assert forall|x: Self| #[trigger] x.fields() != fields_view(fs@) by {
                    assert(x.fields().len() == 2);
                }
            }
            return None;
        }
        let v_name = match text_at(fs, 0) {
            Some(v) => v,
            None => {
                return None;
            },
        };
        let v_value = match u32_at(fs, 1) {
            Some(v) => v,
            None => {
                return None;
            },
        };
        let r = PlanLimit { name: v_name, value: v_value };
        assert(r.fields() =~= fields_view(fs@));
        Some(r)
    }
}
impl Nested for PlanLimit {
    open spec fn width() -> nat {
        2
    }

    proof fn lemma_width(x: Self) {
    }

    proof fn lemma_width_positive() {
    }

    fn width_exec() -> (r: usize) {
        2
    }
}

impl Record for SubscriptionPlan {
    open spec fn fields(&self) -> Seq<Field> {
        seq![
            Field::Nat(self.id),
            Field::Text(self.name@),
            Field::Nat(self.price_naira),
            Field::Text(self.billing_cycle@),
            Field::Texts(self.features.deep_view()),
            opt_text(self.paystack_plan_code),
            flag(self.is_active),
            Field::Nat(self.created_at),
        ] + nested_list(self.limits@)
    }

    fn to_fields(&self) -> (r: Vec<FieldVal>) {
        let mut r = vec![
            FieldVal::Nat(self.id),
            FieldVal::Text(self.name.clone()),
            FieldVal::Nat(self.price_naira),
            FieldVal::Text(self.billing_cycle.clone()),
            FieldVal::Texts(copy_texts(&self.features)),
            opt_text_val(&self.paystack_plan_code),
            flag_val(self.is_active),
            FieldVal::Nat(self.created_at),
        ];
        push_nested(&mut r, &self.limits);
        assert(fields_view(r@) =~= self.fields());
        r
    }

    fn from_fields(fs: &Vec<FieldVal>) -> (r: Option<Self>) {
        if fs.len() < 9 {
            proof {
                assert forall|x: Self| #[trigger] x.fields() != fields_view(fs@) by {
                    assert(x.fields().len() >= 9);
                }
            }
            return None;
        }
        let v_id = match nat_at(fs, 0) {
            Some(v) => v,
            None => {
                proof {
                    assert forall|x: Self| #[trigger] x.fields() != fields_view(fs@) by {
                        assert(x.fields()[0] == Field::Nat(x.id));
                    }
                }
                return None;
            },
        };
        let v_name = match text_at(fs, 1) {
            Some(v) => v,
            None => {
                proof {
                    assert forall|x: Self| #[trigger] x.fields() != fields_view(fs@) by {
                        assert(x.fields()[1] == Field::Text(x.name@));
                    }
                }
                return None;
            },
        };
        let v_price_naira = match nat_at(fs, 2) {
            Some(v) => v,
            None => {
                proof {
                    assert forall|x: Self| #[trigger] x.fields() != fields_view(fs@) by {
                        assert(x.fields()[2] == Field::Nat(x.price_naira));
                    }
                }
                return None;
            },
        };
        let v_billing_cycle = match text_at(fs, 3) {
            Some(v) => v,
            None => {
                proof {
                    assert forall|x: Self| #[trigger] x.fields() != fields_view(fs@) by {
                        assert(x.fields()[3] == Field::Text(x.billing_cycle@));
                    }
                }
                return None;
            },
        };
        let v_features = match texts_at(fs, 4) {
            Some(v) => v,
            None => {
                proof {
                    assert forall|x: Self| #[trigger] x.fields() != fields_view(fs@) by {
                        assert(x.fields()[4] == Field::Texts(x.features.deep_view()));
                    }
                }
                return None;
            },
        };
        let v_paystack_plan_code = match opt_text_at(fs, 5) {
            Some(v) => v,
            None => {
                proof {
                    assert forall|x: Self| #[trigger] x.fields() != fields_view(fs@) by {
                        assert(x.fields()[5] == opt_text(x.paystack_plan_code));
                    }
                }
                return None;
            },
        };
        let v_is_active = match flag_at(fs, 6) {
            Some(v) => v,
            None => {
                proof {
                    assert forall|x: Self| #[trigger] x.fields() != fields_view(fs@) by {
                        assert(x.fields()[6] == flag(x.is_active));
                    }
                }
                return None;
            },
        };
        let v_created_at = match nat_at(fs, 7) {
            Some(v) => v,
            None => {
                proof {
                    assert forall|x: Self| #[trigger] x.fields() != fields_view(fs@) by {
                        assert(x.fields()[7] == Field::Nat(x.created_at));
                    }
                }
                return None;
            },
        };
        let v_limits = match nested_from::<PlanLimit>(fs, 8) {
            Some(v) => v,
            None => {
                proof {
                    assert forall|x: Self| #[trigger] x.fields() != fields_view(fs@) by {
                        if x.fields() == fields_view(fs@) {
                            assert(fields_view(fs@).skip(8) =~= nested_list(x.limits@));
                        }
                    }
                }
                return None;
            },
        };
        let r = SubscriptionPlan {
            id: v_id,
            name: v_name,
            price_naira: v_price_naira,
            billing_cycle: v_billing_cycle,
            features: v_features,
            paystack_plan_code: v_paystack_plan_code,
            is_active: v_is_active,
            created_at: v_created_at,
            limits: v_limits,
        };
        assert(fields_view(fs@) =~= fields_view(fs@).take(8) + fields_view(fs@).skip(8));
        assert(r.fields() =~= fields_view(fs@));
        Some(r)
    }
}
impl PaymentTransaction {
    /// The pairs of this record name each setting at most once.
    pub open spec fn wf(&self) -> bool {
        opt_names_unique(self.payment_metadata)
    }
}

impl SubscriptionPlan {
    /// Each limit of the plan is named once.
    pub open spec fn wf(&self) -> bool {
        forall|i: int, j: int|
            0 <= i < j < self.limits@.len() ==> #[trigger] self.limits@[i].name@
                != #[trigger] self.limits@[j].name@
    }
}

} // verus!
