use cogni_store::codec::{read_fields, write_fields, FieldVal};
use cogni_store::models::billing::{PaymentTransaction, PlanLimit, SubscriptionPlan, UserSubscription};
use cogni_store::models::learning_path::{LearningPath, LearningPathModule};
use cogni_store::models::tutor::{TutorMessage, TutorSession};
use cogni_store::models::connections::{ConnectionRequest, UserConnection};
use cogni_store::models::gamification::{Achievement, Task, UserAchievement, UserTaskCompletion};
use cogni_store::models::study_group::{GroupMembership, StudyGroup};
use cogni_store::models::tutor::Tutor;
use cogni_store::models::user::{User, UserSettings};
use cogni_store::record::{from_bytes, to_bytes};
use cogni_store::text::decimal_text;
use cogni_store::{EntityKind, IdCounters, Identity};

fn s(x: &str) -> String {
    x.to_string()
}

fn who(b: &[u8]) -> Identity {
    Identity::new(b.to_vec())
}

fn full_user() -> User {
    User {
        id: who(&[1, 2, 3]),
        public_id: s("abc-def"),
        email: s("zoë@example.com"),
        username: s("zoë"),
        first_name: Some(s("Zoë")),
        last_name: None,
        is_active: true,
        is_verified: false,
        created_at: 1,
        updated_at: u64::MAX,
        last_login: Some(0),
        oauth_provider: None,
        oauth_id: Some(s("gh")),
        avatar_url: None,
        bio: Some(s("学习 🚀")),
        blockchain_wallet_address: None,
        blockchain_wallet_type: Some(s("sui")),
        blockchain_wallet_connected_at: None,
        wallet_address: Some(s("0x1")),
        public_key: None,
        role: s("admin"),
        status: s("active"),
        location: Some(s("Lagos")),
        subscription: s("pro"),
        last_active: 99,
        settings: UserSettings {
            learning_style: s("visual"),
            preferred_language: s("yo"),
            difficulty_level: s("hard"),
            daily_goal_hours: 255,
            two_factor_enabled: true,
            font_size: s("large"),
            contrast: s("high"),
            ai_interaction_style: s("formal"),
            profile_visibility: s("private"),
            activity_sharing: s(""),
        },
    }
}

#[test]
fn user_round_trip() {
    let u = full_user();
    let back: User = from_bytes(&to_bytes(&u)).unwrap();
    assert_eq!(back.id.bytes, vec![1, 2, 3]);
    assert_eq!(back.email, "zoë@example.com");
    assert_eq!(back.first_name, Some(s("Zoë")));
    assert_eq!(back.last_name, None);
    assert_eq!(back.updated_at, u64::MAX);
    assert_eq!(back.last_login, Some(0));
    assert_eq!(back.bio, Some(s("学习 🚀")));
    assert!(back.is_active && !back.is_verified);
    assert_eq!(back.settings.daily_goal_hours, 255);
    assert!(back.settings.two_factor_enabled);
    assert_eq!(back.settings.activity_sharing, "");
    assert_eq!(back.location, Some(s("Lagos")));
    assert_eq!(to_bytes(&back), to_bytes(&u));
}

#[test]
fn tutor_round_trip() {
    let t = Tutor {
        id: 7,
        public_id: s("7"),
        user_id: who(&[]),
        name: s("Ada"),
        description: s("numbers"),
        teaching_style: s("socratic"),
        personality: s("calm"),
        expertise: vec![s("algebra"), s(""), s("géométrie")],
        knowledge_base: vec![],
        is_pinned: true,
        avatar_url: Some(s("https://x/y.png")),
        voice_id: None,
        voice_settings: vec![(s("pitch"), s("low")), (s("speed"), s("1.5"))],
        created_at: 3,
        updated_at: 4,
    };
    let back: Tutor = from_bytes(&to_bytes(&t)).unwrap();
    assert_eq!(back.id, 7);
    assert_eq!(back.user_id.bytes, Vec::<u8>::new());
    assert_eq!(back.expertise, t.expertise);
    assert!(back.knowledge_base.is_empty());
    assert!(back.is_pinned);
    assert_eq!(back.voice_settings, t.voice_settings);
    assert_eq!(back.avatar_url, t.avatar_url);
}

#[test]
fn connection_records_round_trip() {
    let q = ConnectionRequest {
        id: 1,
        sender_id: who(&[1]),
        receiver_id: who(&[2; 29]),
        status: s("pending"),
        message: Some(s("hello")),
        created_at: 5,
        updated_at: 6,
        responded_at: None,
    };
    let back: ConnectionRequest = from_bytes(&to_bytes(&q)).unwrap();
    assert_eq!(back.receiver_id.bytes, vec![2; 29]);
    assert_eq!(back.message, Some(s("hello")));
    assert_eq!(back.responded_at, None);
    let c = UserConnection {
        id: 2,
        user1_id: who(&[1]),
        user2_id: who(&[2]),
        status: s("blocked"),
        created_at: 7,
        updated_at: 8,
    };
    let back: UserConnection = from_bytes(&to_bytes(&c)).unwrap();
    assert_eq!(back.status, "blocked");
    assert_eq!((back.created_at, back.updated_at), (7, 8));
}

#[test]
fn group_records_round_trip() {
    let g = StudyGroup {
        id: 3,
        public_id: s("3"),
        name: s("g"),
        description: None,
        creator_id: who(&[4]),
        topic_id: Some(11),
        is_private: false,
        max_members: u32::MAX,
        learning_level: s("beginner"),
        meeting_frequency: Some(s("weekly")),
        goals: None,
        created_at: 1,
        updated_at: 2,
    };
    let back: StudyGroup = from_bytes(&to_bytes(&g)).unwrap();
    assert_eq!(back.topic_id, Some(11));
    assert_eq!(back.max_members, u32::MAX);
    assert_eq!(back.meeting_frequency, Some(s("weekly")));
    let m = GroupMembership {
        id: 4,
        user_id: who(&[4]),
        group_id: 3,
        role: s("moderator"),
        status: s("banned"),
        joined_at: 9,
        contributions: 12,
        last_active_at: None,
    };
    let back: GroupMembership = from_bytes(&to_bytes(&m)).unwrap();
    assert_eq!(back.role, "moderator");
    assert_eq!(back.contributions, 12);
    assert_eq!(back.last_active_at, None);
}

#[test]
fn gamification_records_round_trip() {
    let t = Task {
        id: 1,
        public_id: s("1"),
        title: s("t"),
        description: s("d"),
        category: s("social"),
        difficulty: s("medium"),
        token_reward: 3,
        points_reward: 4,
        requirements: Some(s("{}")),
        is_active: false,
        is_repeatable: true,
        max_completions: 9,
        created_by: who(&[1]),
        created_at: 1,
        expires_at: Some(100),
        metadata: Some(vec![(s("k"), s("v"))]),
    };
    let back: Task = from_bytes(&to_bytes(&t)).unwrap();
    assert_eq!(back.metadata, Some(vec![(s("k"), s("v"))]));
    assert_eq!(back.expires_at, Some(100));
    assert!(back.is_repeatable && !back.is_active);
    let c = UserTaskCompletion {
        id: 1,
        user_id: who(&[2]),
        task_id: 1,
        completed_at: 5,
        tokens_earned: 3,
        points_earned: 4,
        completion_count: 2,
        proof_data: Some(s("{\"a\":1}")),
        metadata: None,
    };
    let back: UserTaskCompletion = from_bytes(&to_bytes(&c)).unwrap();
    assert_eq!(back.proof_data, Some(s("{\"a\":1}")));
    assert_eq!(back.metadata, None);
    let a = Achievement {
        id: 1,
        public_id: s("1"),
        title: s("first"),
        description: s("d"),
        category: s("learning"),
        icon: None,
        requirements: s("{}"),
        reward_tokens: 1,
        reward_points: 2,
        is_active: true,
        created_at: 3,
        created_by: who(&[1]),
    };
    let back: Achievement = from_bytes(&to_bytes(&a)).unwrap();
    assert_eq!(back.title, "first");
    let ua = UserAchievement {
        id: 1,
        user_id: who(&[1]),
        achievement_id: 1,
        progress_bits: 42.5f32.to_bits(),
        is_completed: false,
        completed_at: None,
        tokens_earned: 0,
        points_earned: 0,
        created_at: 1,
        updated_at: 2,
    };
    let back: UserAchievement = from_bytes(&to_bytes(&ua)).unwrap();
    assert_eq!(f32::from_bits(back.progress_bits), 42.5);
}

#[test]
fn billing_records_round_trip() {
    let sub = UserSubscription {
        id: 1,
        user_id: who(&[1]),
        plan_id: 2,
        paystack_customer_code: Some(s("CUS_1")),
        paystack_subscription_code: None,
        paystack_email_token: None,
        status: s("active"),
        start_date: 10,
        end_date: None,
        next_payment_date: Some(20),
        amount_naira: 500000,
        currency: s("NGN"),
        auto_renew: true,
        created_at: 1,
        updated_at: 1,
        cancelled_at: None,
    };
    let back: UserSubscription = from_bytes(&to_bytes(&sub)).unwrap();
    assert_eq!(back.amount_naira, 500000);
    assert_eq!(back.next_payment_date, Some(20));
    let pay = PaymentTransaction {
        id: 1,
        user_id: who(&[1]),
        subscription_id: Some(1),
        paystack_reference: s("ref"),
        paystack_access_code: None,
        paystack_transaction_id: Some(s("tx")),
        amount_naira: 1,
        currency: s("NGN"),
        status: s("success"),
        payment_method: None,
        description: None,
        payment_metadata: Some(vec![]),
        created_at: 1,
        paid_at: Some(2),
    };
    let back: PaymentTransaction = from_bytes(&to_bytes(&pay)).unwrap();
    assert_eq!(back.payment_metadata, Some(vec![]));
    assert_eq!(back.paid_at, Some(2));
}

#[test]
fn counters_round_trip() {
    let mut c = IdCounters::zero();
    c.task = 41;
    c.user_task_completion = u64::MAX;
    let back: IdCounters = from_bytes(&to_bytes(&c)).unwrap();
    assert!(back == c);
    assert_eq!(back.get(EntityKind::Task), 41);
}

#[test]
fn wrong_shapes_do_not_decode() {
    assert!(from_bytes::<User>(&vec![]).is_none());
    assert!(from_bytes::<UserConnection>(&vec![0, 1]).is_none());
    let c = UserConnection {
        id: 2,
        user1_id: who(&[1]),
        user2_id: who(&[2]),
        status: s("active"),
        created_at: 7,
        updated_at: 8,
    };
    let bytes = to_bytes(&c);
    assert!(from_bytes::<GroupMembership>(&bytes).is_none());
    let mut extended = bytes.clone();
    extended.push(5);
    assert!(from_bytes::<UserConnection>(&extended).is_none());
    let mut truncated = bytes.clone();
    truncated.pop();
    assert!(from_bytes::<UserConnection>(&truncated).is_none());
}

#[test]
fn field_encoding_layout() {
    let fs = vec![FieldVal::Nat(258), FieldVal::Text(s("é")), FieldVal::Absent];
    let b = write_fields(&fs);
    assert_eq!(
        b,
        vec![0, 2, 1, 0, 0, 0, 0, 0, 0, 1, 2, 0, 0, 0, 0, 0, 0, 0, 0xc3, 0xa9, 5]
    );
    let back = read_fields(&b).unwrap();
    assert_eq!(back.len(), 3);
    assert!(matches!(&back[0], FieldVal::Nat(258)));
    assert!(matches!(&back[1], FieldVal::Text(t) if t == "é"));
    assert!(matches!(&back[2], FieldVal::Absent));
    assert!(read_fields(&vec![1, 2, 0, 0, 0, 0, 0, 0, 0, 0xc3, 0x28]).is_none());
}

#[test]
fn kind_names() {
    assert!(EntityKind::from_name("connection_request") == Some(EntityKind::ConnectionRequest));
    assert!(EntityKind::from_name("user_task_completion") == Some(EntityKind::UserTaskCompletion));
    assert!(EntityKind::from_name("user") == None);
    assert!(EntityKind::from_name("Tutor") == None);
}

#[test]
fn decimal_digits() {
    assert_eq!(decimal_text(0), "0");
    assert_eq!(decimal_text(1234), "1234");
    assert_eq!(decimal_text(u64::MAX), "18446744073709551615");
}

#[test]
fn tutor_session_round_trip() {
    let session = TutorSession {
        id: 5,
        public_id: s("5"),
        user_id: who(&[1]),
        tutor_id: 2,
        topic: s("fractions"),
        status: s("active"),
        created_at: 1,
        updated_at: 2,
        messages: vec![
            TutorMessage { id: 1, sender: s("user"), content: s("what is ½?"), timestamp: 10, has_audio: false },
            TutorMessage { id: 2, sender: s("tutor"), content: s(""), timestamp: 11, has_audio: true },
        ],
    };
    let back: TutorSession = from_bytes(&to_bytes(&session)).unwrap();
    assert_eq!(back.topic, "fractions");
    assert_eq!(back.messages.len(), 2);
    assert_eq!(back.messages[0].content, "what is ½?");
    assert_eq!(back.messages[1].sender, "tutor");
    assert!(back.messages[1].has_audio);
    assert_eq!(back.messages[1].timestamp, 11);
    let empty = TutorSession { messages: vec![], ..back };
    let again: TutorSession = from_bytes(&to_bytes(&empty)).unwrap();
    assert!(again.messages.is_empty());
    assert_eq!(again.id, 5);
}

#[test]
fn learning_path_round_trip() {
    let path = LearningPath {
        id: 1,
        title: s("Rust"),
        description: s("from zero"),
        level: s("beginner"),
        duration: s("4 weeks"),
        thumbnail: None,
        tags: vec![s("systems"), s("safety")],
        created_at: 1,
        updated_at: 1,
        modules: vec![LearningPathModule {
            id: 9,
            title: s("ownership"),
            description: s("moves"),
            duration: s("1h"),
            module_type: s("reading"),
            order: 1,
            content: s("{}"),
            resources: vec![s("book"), s("video")],
        }],
    };
    let back: LearningPath = from_bytes(&to_bytes(&path)).unwrap();
    assert_eq!(back.tags, path.tags);
    assert_eq!(back.modules.len(), 1);
    assert_eq!(back.modules[0].resources, vec![s("book"), s("video")]);
    assert_eq!(back.modules[0].order, 1);
}

#[test]
fn subscription_plan_round_trip() {
    let plan = SubscriptionPlan {
        id: 3,
        name: s("Pro"),
        price_naira: 250000,
        billing_cycle: s("monthly"),
        features: vec![s("tutors")],
        limits: vec![
            PlanLimit { name: s("tutors"), value: 10 },
            PlanLimit { name: s("groups"), value: u32::MAX },
        ],
        paystack_plan_code: Some(s("PLN_x")),
        is_active: true,
        created_at: 4,
    };
    let back: SubscriptionPlan = from_bytes(&to_bytes(&plan)).unwrap();
    assert_eq!(back.limits.len(), 2);
    assert_eq!(back.limits[1].name, "groups");
    assert_eq!(back.limits[1].value, u32::MAX);
    assert_eq!(back.paystack_plan_code, Some(s("PLN_x")));
    let mut bytes = to_bytes(&plan);
    bytes.truncate(bytes.len() - 9);
    assert!(from_bytes::<SubscriptionPlan>(&bytes).is_none());
}
