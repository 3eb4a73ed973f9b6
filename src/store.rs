//! The storage engine: one table per entity kind, the identifier allocator,
//! and the lifecycle transitions that the request handlers drive over them.
//!
//! Every operation takes the already authenticated caller and the current
//! time as plain values. Each states exactly which tables it rewrites; the
//! rest stay as they were.
use crate::codec::{
    Field, enc_fields, encodes, fields_fit, lemma_encoding_injective, lemma_fields_round_trip,
};
use crate::error::{Fatal, StoreError};
use crate::ids::{EntityKind, IdAllocator, counter_in, intact, minted, next_id};
use crate::models::connections::{ConnectionRequest, UserConnection};
use crate::models::gamification::{Task, UserTaskCompletion};
use crate::models::study_group::{GroupMembership, StudyGroup};
use crate::models::tutor::Tutor;
use crate::models::user::{User, UserSettings};
use crate::record::{Identity, Record, copy_bytes, from_bytes, is_record, lemma_record_round_trip, to_bytes};
use crate::storage::{IdTable, KeyTable, RegionManager, bytes_lt};
use crate::text::{decimal, decimal_text, principal_text, principal_text_of, str_eq};
use vstd::prelude::*;

verus! {

pub const USER_REGION: u8 = 0;
pub const TUTOR_REGION: u8 = 1;
pub const TUTOR_SESSION_REGION: u8 = 2;
pub const LEARNING_PATH_REGION: u8 = 3;
pub const CONNECTION_REGION: u8 = 4;
pub const CONNECTION_REQUEST_REGION: u8 = 5;
pub const STUDY_GROUP_REGION: u8 = 6;
pub const GROUP_MEMBERSHIP_REGION: u8 = 7;
pub const SUBSCRIPTION_PLAN_REGION: u8 = 8;
pub const USER_SUBSCRIPTION_REGION: u8 = 9;
pub const PAYMENT_TRANSACTION_REGION: u8 = 10;
pub const ACHIEVEMENT_REGION: u8 = 11;
pub const USER_ACHIEVEMENT_REGION: u8 = 12;
pub const TASK_REGION: u8 = 13;
pub const USER_TASK_COMPLETION_REGION: u8 = 14;
pub const ID_COUNTER_REGION: u8 = 20;

/// All durable state: one table per entity kind, each in a region of its
/// own, and the identifier allocator.
pub struct Store {
    users: KeyTable,
    tutors: IdTable,
    tutor_sessions: IdTable,
    learning_paths: IdTable,
    connections: IdTable,
    connection_requests: IdTable,
    study_groups: IdTable,
    group_memberships: IdTable,
    subscription_plans: IdTable,
    user_subscriptions: IdTable,
    payment_transactions: IdTable,
    achievements: IdTable,
    user_achievements: IdTable,
    tasks: IdTable,
    user_task_completions: IdTable,
    ids: IdAllocator,
}

impl Store {
    /// What the user table holds.
    pub closed spec fn users(&self) -> Map<Seq<u8>, Seq<u8>> {
        self.users@
    }

    /// What the tutor table holds.
    pub closed spec fn tutors(&self) -> Map<u64, Seq<u8>> {
        self.tutors@
    }

    /// What the tutor-session table holds.
    pub closed spec fn tutor_sessions(&self) -> Map<u64, Seq<u8>> {
        self.tutor_sessions@
    }

    /// What the learning-path table holds.
    pub closed spec fn learning_paths(&self) -> Map<u64, Seq<u8>> {
        self.learning_paths@
    }

    /// What the connection table holds.
    pub closed spec fn connections(&self) -> Map<u64, Seq<u8>> {
        self.connections@
    }

    /// What the connection-request table holds.
    pub closed spec fn connection_requests(&self) -> Map<u64, Seq<u8>> {
        self.connection_requests@
    }

    /// What the study-group table holds.
    pub closed spec fn study_groups(&self) -> Map<u64, Seq<u8>> {
        self.study_groups@
    }

    /// What the group-membership table holds.
    pub closed spec fn group_memberships(&self) -> Map<u64, Seq<u8>> {
        self.group_memberships@
    }

    /// What the subscription-plan table holds.
    pub closed spec fn subscription_plans(&self) -> Map<u64, Seq<u8>> {
        self.subscription_plans@
    }

    /// What the user-subscription table holds.
    pub closed spec fn user_subscriptions(&self) -> Map<u64, Seq<u8>> {
        self.user_subscriptions@
    }

    /// What the payment-transaction table holds.
    pub closed spec fn payment_transactions(&self) -> Map<u64, Seq<u8>> {
        self.payment_transactions@
    }

    /// What the achievement table holds.
    pub closed spec fn achievements(&self) -> Map<u64, Seq<u8>> {
        self.achievements@
    }

    /// What the user-achievement table holds.
    pub closed spec fn user_achievements(&self) -> Map<u64, Seq<u8>> {
        self.user_achievements@
    }

    /// What the task table holds.
    pub closed spec fn tasks(&self) -> Map<u64, Seq<u8>> {
        self.tasks@
    }

    /// What the task-completion table holds.
    pub closed spec fn user_task_completions(&self) -> Map<u64, Seq<u8>> {
        self.user_task_completions@
    }

    /// What the identifier allocator's cell holds.
    pub closed spec fn ids(&self) -> Seq<u8> {
        self.ids@
    }
}

/// The parts of the state that an operation may rewrite.
pub enum Part {
    Users,
    Tutors,
    Connections,
    ConnectionRequests,
    StudyGroups,
    GroupMemberships,
    Tasks,
    UserTaskCompletions,
    Ids,
}

/// `b` differs from `a` at most in the parts listed.
pub open spec fn changes_only(a: Store, b: Store, parts: Set<Part>) -> bool {
    &&& (!parts.contains(Part::Users) ==> b.users() == a.users())
    &&& (!parts.contains(Part::Tutors) ==> b.tutors() == a.tutors())
    &&& (!parts.contains(Part::Connections) ==> b.connections() == a.connections())
    &&& (!parts.contains(Part::ConnectionRequests) ==> b.connection_requests()
        == a.connection_requests())
    &&& (!parts.contains(Part::StudyGroups) ==> b.study_groups() == a.study_groups())
    &&& (!parts.contains(Part::GroupMemberships) ==> b.group_memberships() == a.group_memberships())
    &&& (!parts.contains(Part::Tasks) ==> b.tasks() == a.tasks())
    &&& (!parts.contains(Part::UserTaskCompletions) ==> b.user_task_completions()
        == a.user_task_completions())
    &&& (!parts.contains(Part::Ids) ==> b.ids() == a.ids())
    &&& b.tutor_sessions() == a.tutor_sessions()
    &&& b.learning_paths() == a.learning_paths()
    &&& b.subscription_plans() == a.subscription_plans()
    &&& b.user_subscriptions() == a.user_subscriptions()
    &&& b.payment_transactions() == a.payment_transactions()
    &&& b.achievements() == a.achievements()
    &&& b.user_achievements() == a.user_achievements()
}

/// Nothing durable changed from `a` to `b`.
pub open spec fn unchanged(a: Store, b: Store) -> bool {
    changes_only(a, b, Set::empty())
}

/// The stored form of a record.
pub open spec fn stored<R: Record>(x: R) -> Seq<u8> {
    enc_fields(x.fields())
}

/// The record of type `R` that the table holding `m` keeps under `key`.
pub open spec fn record_at<R: Record>(m: Map<u64, Seq<u8>>, key: u64) -> R {
    choose|x: R| encodes(m[key], #[trigger] x.fields())
}

/// The user that the table holding `m` keeps under `key`.
pub open spec fn user_at(m: Map<Seq<u8>, Seq<u8>>, key: Seq<u8>) -> User {
    choose|x: User| encodes(m[key], #[trigger] x.fields())
}

/// `r` is what reading `key` as an `R` from the table holding `m` gives:
/// nothing when absent, a fatal error when the entry does not decode, and
/// otherwise the record it encodes.
pub open spec fn read_as<R: Record>(m: Map<u64, Seq<u8>>, key: u64, r: Result<Option<R>, StoreError>) -> bool {
    if !m.contains_key(key) {
        r == Ok::<Option<R>, StoreError>(None)
    } else if !is_record::<R>(m[key]) {
        r == Err::<Option<R>, StoreError>(StoreError::Fatal(Fatal::CorruptRecord))
    } else {
        r matches Ok(Some(x)) && encodes(m[key], x.fields())
    }
}

/// Some entry of the table holding `m` does not decode as an `R`.
pub open spec fn has_unreadable<R: Record>(m: Map<u64, Seq<u8>>) -> bool {
    exists|k: u64| m.contains_key(k) && !is_record::<R>(#[trigger] m[k])
}

/// `v` lists, under the keys `ks` in ascending order, the records of the
/// table holding `m` that `keep` selects.
pub open spec fn listed_under<R: Record>(
    m: Map<u64, Seq<u8>>,
    keep: spec_fn(R) -> bool,
    v: Seq<R>,
    ks: Seq<u64>,
) -> bool {
    &&& ks.len() == v.len()
    &&& forall|i: int, j: int| 0 <= i < j < ks.len() ==> ks[i] < ks[j]
    &&& forall|i: int|
        0 <= i < ks.len() ==> m.contains_key(#[trigger] ks[i]) && encodes(m[ks[i]], v[i].fields())
    &&& forall|k: u64|
        m.contains_key(k) ==> (keep(record_at::<R>(m, k)) <==> #[trigger] ks.contains(k))
}

/// `v` lists, in ascending key order, the records of the table holding `m`
/// that `keep` selects.
pub open spec fn lists<R: Record>(m: Map<u64, Seq<u8>>, keep: spec_fn(R) -> bool, v: Seq<R>) -> bool {
    exists|ks: Seq<u64>| listed_under(m, keep, v, ks)
}

/// The identifier allocator cannot mint for `kind`, and why.
pub open spec fn mint_blocked(ids: Seq<u8>, kind: EntityKind) -> Option<Fatal> {
    if !intact(ids) {
        Some(Fatal::CorruptRecord)
    } else if counter_in(ids, kind) == u64::MAX {
        Some(Fatal::CounterExhausted)
    } else {
        None
    }
}

/// The settings a new user starts with.
pub open spec fn default_settings(s: UserSettings) -> bool {
    &&& s.learning_style@ == "visual"@
    &&& s.preferred_language@ == "en"@
    &&& s.difficulty_level@ == "intermediate"@
    &&& s.daily_goal_hours == 1
    &&& !s.two_factor_enabled
    &&& s.font_size@ == "medium"@
    &&& s.contrast@ == "normal"@
    &&& s.ai_interaction_style@ == "casual"@
    &&& s.profile_visibility@ == "public"@
    &&& s.activity_sharing@ == "connections"@
}

/// `u` is the user that `create_user` makes.
pub open spec fn new_user(u: User, caller: Seq<u8>, username: Seq<char>, email: Seq<char>, now: u64) -> bool {
    &&& u.id@ == caller
    &&& u.public_id@ == principal_text(caller)
    &&& u.email@ == email
    &&& u.username@ == username
    &&& u.first_name is None
    &&& u.last_name is None
    &&& u.is_active
    &&& !u.is_verified
    &&& u.created_at == now
    &&& u.updated_at == now
    &&& u.last_login is None
    &&& u.oauth_provider is None
    &&& u.oauth_id is None
    &&& u.avatar_url is None
    &&& u.bio is None
    &&& u.blockchain_wallet_address is None
    &&& u.blockchain_wallet_type is None
    &&& u.blockchain_wallet_connected_at is None
    &&& u.wallet_address is None
    &&& u.public_key is None
    &&& u.role@ == "user"@
    &&& u.status@ == "active"@
    &&& u.location is None
    &&& u.subscription@ == "free"@
    &&& u.last_active == now
    &&& default_settings(u.settings)
}

/// What an operation that mints one identifier of `kind` owes: an error
/// exactly when the allocator is blocked, or when the write of the counter
/// fails; on failure nothing changes.
pub open spec fn mint_outcome<T>(ids: Seq<u8>, kind: EntityKind, r: Result<T, StoreError>) -> bool {
    &&& mint_blocked(ids, kind) matches Some(f) ==> r == Err::<T, StoreError>(StoreError::Fatal(f))
    &&& mint_blocked(ids, kind) is None ==> (r is Ok || r == Err::<T, StoreError>(
        StoreError::Fatal(Fatal::WriteFailed),
    ))
}

/// `t` is the tutor that `create_tutor` makes under identifier `t.id`.
pub open spec fn new_tutor(
    t: Tutor,
    caller: Seq<u8>,
    name: Seq<char>,
    description: Seq<char>,
    teaching_style: Seq<char>,
    personality: Seq<char>,
    expertise: Seq<Seq<char>>,
    now: u64,
) -> bool {
    &&& t.public_id@ == decimal(t.id as nat)
    &&& t.user_id@ == caller
    &&& t.name@ == name
    &&& t.description@ == description
    &&& t.teaching_style@ == teaching_style
    &&& t.personality@ == personality
    &&& t.expertise.deep_view() == expertise
    &&& t.knowledge_base@.len() == 0
    &&& !t.is_pinned
    &&& t.avatar_url is None
    &&& t.voice_id is None
    &&& t.voice_settings@.len() == 0
    &&& t.created_at == now
    &&& t.updated_at == now
}

/// Why accepting request `id` on behalf of `caller` is refused, if it is.
pub open spec fn accept_refusal(s: Store, caller: Seq<u8>, id: u64) -> Option<StoreError> {
    let m = s.connection_requests();
    if !m.contains_key(id) {
        Some(StoreError::NotFound)
    } else if !is_record::<ConnectionRequest>(m[id]) {
        Some(StoreError::Fatal(Fatal::CorruptRecord))
    } else if record_at::<ConnectionRequest>(m, id).receiver_id@ != caller {
        Some(StoreError::Unauthorized)
    } else if record_at::<ConnectionRequest>(m, id).status@ != "pending"@ {
        Some(StoreError::InvalidState)
    } else {
        None
    }
}

/// The fields of request `q` once accepted at time `now`.
pub open spec fn accepted_fields(q: ConnectionRequest, now: u64) -> Seq<Field> {
    q.fields().update(3, Field::Text("accepted"@)).update(7, Field::Nat(now))
}

/// The fields of the membership `id` of `user` in group `group` with `role`,
/// joined at `now`.
pub open spec fn membership_fields(id: u64, user: Seq<u8>, group: u64, role: Seq<char>, now: u64) -> Seq<Field> {
    seq![
        Field::Nat(id),
        Field::Bytes(user),
        Field::Nat(group),
        Field::Text(role),
        Field::Text("active"@),
        Field::Nat(now),
        Field::Nat(0),
        Field::Nat(now),
    ]
}

/// Two identifiers were minted, `id1` of `k1` and `id2` of `k2`, taking the
/// allocator from `a` to `b`.
pub open spec fn minted_two(a: Seq<u8>, k1: EntityKind, id1: u64, k2: EntityKind, id2: u64, b: Seq<u8>) -> bool {
    &&& k1 != k2
    &&& intact(a)
    &&& intact(b)
    &&& id1 == counter_in(a, k1) + 1
    &&& id2 == counter_in(a, k2) + 1
    &&& counter_in(b, k1) == id1
    &&& counter_in(b, k2) == id2
    &&& forall|k: EntityKind| k != k1 && k != k2 ==> #[trigger] counter_in(b, k) == counter_in(a, k)
}

/// `g` is the group that `create_study_group` makes under identifier `g.id`.
pub open spec fn new_group(
    g: StudyGroup,
    caller: Seq<u8>,
    name: Seq<char>,
    description: Option<String>,
    is_private: bool,
    max_members: u32,
    learning_level: Seq<char>,
    now: u64,
) -> bool {
    &&& g.public_id@ == decimal(g.id as nat)
    &&& g.name@ == name
    &&& g.description == description
    &&& g.creator_id@ == caller
    &&& g.topic_id is None
    &&& g.is_private == is_private
    &&& g.max_members == max_members
    &&& g.learning_level@ == learning_level
    &&& g.meeting_frequency is None
    &&& g.goals is None
    &&& g.created_at == now
    &&& g.updated_at == now
}

/// `t` is the task that `create_task` makes under identifier `t.id`.
pub open spec fn new_task(
    t: Task,
    caller: Seq<u8>,
    title: Seq<char>,
    description: Seq<char>,
    category: Seq<char>,
    difficulty: Seq<char>,
    token_reward: u32,
    points_reward: u32,
    now: u64,
) -> bool {
    &&& t.public_id@ == decimal(t.id as nat)
    &&& t.title@ == title
    &&& t.description@ == description
    &&& t.category@ == category
    &&& t.difficulty@ == difficulty
    &&& t.token_reward == token_reward
    &&& t.points_reward == points_reward
    &&& t.requirements is None
    &&& t.is_active
    &&& !t.is_repeatable
    &&& t.max_completions == 1
    &&& t.created_by@ == caller
    &&& t.created_at == now
    &&& t.expires_at is None
    &&& t.metadata is None
}

/// `r` is what reading the user under `key` from the table holding `m`
/// gives: nothing when absent, a fatal error when the entry does not decode,
/// and otherwise the user it encodes.
pub open spec fn read_user_as(m: Map<Seq<u8>, Seq<u8>>, key: Seq<u8>, r: Result<Option<User>, StoreError>) -> bool {
    if !m.contains_key(key) {
        r == Ok::<Option<User>, StoreError>(None)
    } else if !is_record::<User>(m[key]) {
        r == Err::<Option<User>, StoreError>(StoreError::Fatal(Fatal::CorruptRecord))
    } else {
        r matches Ok(Some(x)) && encodes(m[key], x.fields())
    }
}

/// Whether `who` is an administrator: its stored user has the role "admin".
pub open spec fn admin_status(m: Map<Seq<u8>, Seq<u8>>, who: Seq<u8>) -> Result<bool, StoreError> {
    let k = user_key(who);
    if !m.contains_key(k) {
        Ok(false)
    } else if !is_record::<User>(m[k]) {
        Err(StoreError::Fatal(Fatal::CorruptRecord))
    } else {
        Ok(user_at(m, k).role@ == "admin"@)
    }
}

/// Why an administrator-only operation called by `caller` is refused, if it
/// is.
pub open spec fn admin_refusal(m: Map<Seq<u8>, Seq<u8>>, caller: Seq<u8>) -> Option<StoreError> {
    match admin_status(m, caller) {
        Err(e) => Some(e),
        Ok(false) => Some(StoreError::Unauthorized),
        Ok(true) => None,
    }
}

/// Some entry of the user table holding `m` does not decode.
pub open spec fn has_unreadable_user(m: Map<Seq<u8>, Seq<u8>>) -> bool {
    exists|k: Seq<u8>| m.contains_key(k) && !is_record::<User>(#[trigger] m[k])
}

/// `v` lists every user of the table holding `m`, in ascending key order.
pub open spec fn lists_users(m: Map<Seq<u8>, Seq<u8>>, v: Seq<User>) -> bool {
    exists|ks: Seq<Seq<u8>>|
        {
            &&& #[trigger] ks.len() == v.len()
            &&& forall|i: int, j: int| 0 <= i < j < ks.len() ==> bytes_lt(ks[i], ks[j])
            &&& forall|i: int|
                0 <= i < ks.len() ==> m.contains_key(#[trigger] ks[i]) && encodes(
                    m[ks[i]],
                    v[i].fields(),
                )
            &&& forall|k: Seq<u8>| m.contains_key(k) ==> #[trigger] ks.contains(k)
        }
}

/// The memberships of the table holding `m` that name group `group`.
pub open spec fn memberships_of(m: Map<u64, Seq<u8>>, group: u64) -> Set<u64> {
    m.dom().filter(
        |k: u64| is_record::<GroupMembership>(m[k]) && record_at::<GroupMembership>(m, k).group_id == group,
    )
}

/// Storing a record under a key and reading that key back gives a record
/// equal to it in every field.
pub proof fn lemma_store_then_load<R: Record>(m0: Map<u64, Seq<u8>>, key: u64, x: R, m1: Map<u64, Seq<u8>>)
    requires
        m1 == m0.insert(key, stored(x)),
        fields_fit(x.fields()),
    ensures
        m1.contains_key(key),
        is_record::<R>(m1[key]),
        forall|y: R| encodes(m1[key], #[trigger] y.fields()) ==> y.fields() == x.fields(),
        record_at::<R>(m1, key).fields() == x.fields(),
{
    lemma_record_round_trip(x, m1[key]);
}

/// Once a request has been accepted, accepting it again is refused as no
/// longer pending, and so changes nothing.
pub proof fn lemma_accept_twice(s0: Store, s1: Store, caller: Seq<u8>, id: u64, now: u64)
    requires
        accept_refusal(s0, caller, id) is None,
        s1.connection_requests().contains_key(id),
        is_record::<ConnectionRequest>(s1.connection_requests()[id]),
        record_at::<ConnectionRequest>(s1.connection_requests(), id).fields() == accepted_fields(
            record_at::<ConnectionRequest>(s0.connection_requests(), id),
            now,
        ),
    ensures
        accept_refusal(s1, caller, id) == Some(StoreError::InvalidState),
{
    let q0 = record_at::<ConnectionRequest>(s0.connection_requests(), id);
    let q1 = record_at::<ConnectionRequest>(s1.connection_requests(), id);
    let fs = accepted_fields(q0, now);
    assert(q1.fields()[2] == fs[2]);
    assert(q1.fields()[3] == fs[3]);
    assert(fs[2] == q0.fields()[2]);
    reveal_strlit("accepted");
    reveal_strlit("pending");
    assert(q1.status@ == "accepted"@);
    assert(q1.receiver_id@ == q0.receiver_id@);
    assert(q1.status@ != "pending"@);
}

/// A request that was just sent, and so is stored readable and pending, is
/// accepted by its receiver: no refusal applies.
pub proof fn lemma_sent_request_is_acceptable(s: Store, q: ConnectionRequest, receiver: Seq<u8>)
    requires
        keeps(s.connection_requests(), q.id, q),
        q.receiver_id@ == receiver,
        q.status@ == "pending"@,
    ensures
        accept_refusal(s, receiver, q.id) is None,
{
    let y = record_at::<ConnectionRequest>(s.connection_requests(), q.id);
    assert(y.fields()[2] == q.fields()[2]);
    assert(y.fields()[3] == q.fields()[3]);
}

/// Creating a study group leaves exactly one membership naming it, and that
/// membership makes the creator an admin of the group. This holds when no
/// membership named the new group's identifier before, as none does while
/// memberships name only groups whose identifiers were already minted.
pub proof fn lemma_new_group_has_one_admin(
    m0: Map<u64, Seq<u8>>,
    m1: Map<u64, Seq<u8>>,
    membership: u64,
    b: Seq<u8>,
    creator: Seq<u8>,
    group: u64,
    now: u64,
)
    requires
        m1 == m0.insert(membership, b),
        is_record::<GroupMembership>(b),
        record_at::<GroupMembership>(m1, membership).fields() == membership_fields(
            membership,
            creator,
            group,
            "admin"@,
            now,
        ),
        memberships_of(m0, group).is_empty(),
    ensures
        memberships_of(m1, group) == set![membership],
        record_at::<GroupMembership>(m1, membership).user_id@ == creator,
        record_at::<GroupMembership>(m1, membership).role@ == "admin"@,
{
    let x = record_at::<GroupMembership>(m1, membership);
    let fs = membership_fields(membership, creator, group, "admin"@, now);
    assert(x.fields()[1] == fs[1]);
    assert(x.fields()[2] == fs[2]);
    assert(x.fields()[3] == fs[3]);
    assert forall|k: u64| #[trigger] memberships_of(m1, group).contains(k) <==> k == membership by {
        if k != membership && m1.contains_key(k) {
            assert(m1[k] == m0[k]);
            assert(record_at::<GroupMembership>(m1, k) == record_at::<GroupMembership>(m0, k));
            assert(!memberships_of(m0, group).contains(k));
        }
    }
    assert(memberships_of(m1, group) =~= set![membership]);
}

/// The key under which the user table keeps the user with identity `id`:
/// its length, then its bytes, so that keys sort as principals do, shorter
/// ones first.
pub open spec fn user_key(id: Seq<u8>) -> Seq<u8> {
    seq![(if id.len() < 255 { id.len() } else { 255 }) as u8] + id
}

/// The table holding `m` keeps `x` under `key`, and that entry reads back
/// as a record with the fields of `x`.
pub open spec fn keeps<R: Record>(m: Map<u64, Seq<u8>>, key: u64, x: R) -> bool {
    &&& m.contains_key(key)
    &&& is_record::<R>(m[key])
    &&& record_at::<R>(m, key).fields() == x.fields()
}

/// The user table holding `m` keeps `x` under `key`, and that entry reads
/// back as a user with the fields of `x`.
pub open spec fn keeps_user(m: Map<Seq<u8>, Seq<u8>>, key: Seq<u8>, x: User) -> bool {
    &&& m.contains_key(key)
    &&& is_record::<User>(m[key])
    &&& user_at(m, key).fields() == x.fields()
}

/// Keys of the user table sort as principals do: by length, then bytewise.
pub proof fn lemma_user_key_order(a: Seq<u8>, b: Seq<u8>)
    requires
        a.len() < 255,
        b.len() < 255,
    ensures
        bytes_lt(user_key(a), user_key(b)) <==> (a.len() < b.len() || (a.len() == b.len()
            && bytes_lt(a, b))),
{
    let ka = user_key(a);
    let kb = user_key(b);
    assert(ka[0] == a.len() as u8);
    assert(kb[0] == b.len() as u8);
    assert(ka.drop_first() =~= a);
    assert(kb.drop_first() =~= b);
}

/// The user-table key of `id`.
pub fn user_key_of(id: &Identity) -> (r: Vec<u8>)
    ensures
        r@ == user_key(id@),
{
    let n = id.bytes.len();
    let lead: u8 = if n < 255 {
        n as u8
    } else {
        255
    };
    let mut r = vec![lead];
    let mut rest = copy_bytes(&id.bytes);
    r.append(&mut rest);
    assert(r@ =~= user_key(id@));
    r
}

/// Stores user `x` under `key`, replacing any previous entry.
fn save_user(t: &mut KeyTable, key: Vec<u8>, x: &User)
    ensures
        final(t)@ == old(t)@.insert(key@, stored(*x)),
        keeps_user(final(t)@, key@, *x),
{
    let ghost k = key@;
    let b = to_bytes(x);
    t.insert(key, b);
    proof {
        lemma_record_round_trip(*x, final(t)@[k]);
        assert(encodes(final(t)@[k], user_at(final(t)@, k).fields()));
    }
}

/// How one operation may move the identifier allocator: it leaves it as it
/// was, or keeps it well formed while no counter goes down.
pub open spec fn ids_step(a: Seq<u8>, b: Seq<u8>) -> bool {
    ||| b == a
    ||| (intact(a) && intact(b) && forall|k: EntityKind|
        counter_in(a, k) <= #[trigger] counter_in(b, k))
}

/// The step from `a` to `b` handed out `id` for `kind`: the successor of
/// the last one, which the counter now records.
pub open spec fn issued(a: Seq<u8>, b: Seq<u8>, kind: EntityKind, id: u64) -> bool {
    &&& intact(a)
    &&& intact(b)
    &&& id == counter_in(a, kind) + 1
    &&& counter_in(b, kind) == id
}

proof fn lemma_counter_grows(ids: Seq<Seq<u8>>, kind: EntityKind, from: int, to: int)
    requires
        forall|n: int| 0 <= n < ids.len() - 1 ==> ids_step(#[trigger] ids[n], ids[n + 1]),
        0 <= from <= to < ids.len(),
        intact(ids[from]),
    ensures
        intact(ids[to]),
        counter_in(ids[to], kind) >= counter_in(ids[from], kind),
    decreases to - from,
{
    if from < to {
        lemma_counter_grows(ids, kind, from, to - 1);
        assert(ids_step(ids[to - 1], ids[to]));
    }
}

/// Over any run of store operations, each of which moves the allocator by
/// an `ids_step` (as every operation of `Store` does), the identifiers
/// handed out for one kind strictly increase, and so never repeat.
pub proof fn lemma_store_ids_increase(
    ids: Seq<Seq<u8>>,
    kind: EntityKind,
    i: int,
    j: int,
    first: u64,
    later: u64,
)
    requires
        forall|n: int| 0 <= n < ids.len() - 1 ==> ids_step(#[trigger] ids[n], ids[n + 1]),
        0 <= i < j,
        j + 1 < ids.len(),
        issued(ids[i], ids[i + 1], kind, first),
        issued(ids[j], ids[j + 1], kind, later),
    ensures
        first < later,
{
    lemma_counter_grows(ids, kind, i + 1, j);
}

/// Reads the entry under `key` as an `R`.
fn load<R: Record>(t: &IdTable, key: u64) -> (r: Result<Option<R>, StoreError>)
    ensures
        read_as(t@, key, r),
{
    match t.get(key) {
        None => Ok(None),
        Some(b) => match from_bytes::<R>(&b) {
            Some(x) => Ok(Some(x)),
            None => Err(StoreError::Fatal(Fatal::CorruptRecord)),
        },
    }
}

/// Stores `x` under `key`, replacing any previous entry.
fn save<R: Record>(t: &mut IdTable, key: u64, x: &R)
    ensures
        final(t)@ == old(t)@.insert(key, stored(*x)),
        fields_fit(x.fields()),
        keeps(final(t)@, key, *x),
{
    let ghost m0 = t@;
    let b = to_bytes(x);
    t.insert(key, b);
    proof {
        lemma_store_then_load(m0, key, *x, final(t)@);
    }
}

/// Reads the user under `key`.
fn load_user(t: &KeyTable, key: &Vec<u8>) -> (r: Result<Option<User>, StoreError>)
    ensures
        read_user_as(t@, key@, r),
{
    match t.get(key) {
        None => Ok(None),
        Some(b) => match from_bytes::<User>(&b) {
            Some(x) => Ok(Some(x)),
            None => Err(StoreError::Fatal(Fatal::CorruptRecord)),
        },
    }
}

/// Reads every user, in ascending key order.
fn load_all_users(t: &KeyTable) -> (r: Result<Vec<User>, StoreError>)
    ensures
        has_unreadable_user(t@) ==> r == Err::<Vec<User>, StoreError>(
            StoreError::Fatal(Fatal::CorruptRecord),
        ),
        !has_unreadable_user(t@) ==> (r matches Ok(v) && lists_users(t@, v@)),
{
    let ghost m = t@;
    let es = t.entries();
    let mut out: Vec<User> = Vec::new();
    let mut i: usize = 0;
    while i < es.len()
        invariant
            i <= es@.len(),
            m == t@,
            out@.len() == i,
            forall|a: int|
                0 <= a < i ==> encodes(m[es@[a].0@], #[trigger] out@[a].fields()),
            forall|a: int|
                0 <= a < es@.len() ==> m.contains_key(#[trigger] es@[a].0@) && m[es@[a].0@]
                    == es@[a].1@,
        decreases es@.len() - i,
    {
        match from_bytes::<User>(&es[i].1) {
            Some(x) => {
                out.push(x);
            },
            None => {
                assert(m.contains_key(es@[i as int].0@) && !is_record::<User>(
                    m[es@[i as int].0@],
                ));
                return Err(StoreError::Fatal(Fatal::CorruptRecord));
            },
        }
        i += 1;
    }
    proof {
        let ks = es@.map_values(|e: (Vec<u8>, Vec<u8>)| e.0@);
        assert forall|k: Seq<u8>| m.contains_key(k) implies #[trigger] ks.contains(k) by {
            let a = choose|a: int| 0 <= a < es@.len() && es@[a].0@ == k;
            assert(ks[a] == k);
        }
        assert forall|a: int| 0 <= a < ks.len() implies m.contains_key(#[trigger] ks[a])
            && encodes(m[ks[a]], out@[a].fields()) by {
            assert(ks[a] == es@[a].0@);
        }
        assert forall|a: int, b: int| 0 <= a < b < ks.len() implies bytes_lt(ks[a], ks[b]) by {
            assert(ks[a] == es@[a].0@);
            assert(ks[b] == es@[b].0@);
        }
        assert(lists_users(m, out@));
    }
    proof {
        assert forall|k: Seq<u8>| m.contains_key(k) implies is_record::<User>(#[trigger] m[k]) by {
            let a = choose|a: int| 0 <= a < es@.len() && es@[a].0@ == k;
            assert(encodes(m[k], out@[a].fields()));
        }
    }
    Ok(out)
}

/// Reads every entry as an `R`, in ascending key order.
fn load_all<R: Record>(t: &IdTable) -> (r: Result<Vec<(u64, R)>, StoreError>)
    ensures
        has_unreadable::<R>(t@) ==> r == Err::<Vec<(u64, R)>, StoreError>(
            StoreError::Fatal(Fatal::CorruptRecord),
        ),
        !has_unreadable::<R>(t@) ==> r is Ok,
        r matches Ok(v) ==> forall|i: int, j: int| 0 <= i < j < v@.len() ==> v@[i].0 < v@[j].0,
        r matches Ok(v) ==> forall|i: int|
            0 <= i < v@.len() ==> t@.contains_key(#[trigger] v@[i].0) && encodes(
                t@[v@[i].0],
                v@[i].1.fields(),
            ),
        r matches Ok(v) ==> forall|k: u64| #[trigger]
            t@.contains_key(k) ==> exists|i: int| 0 <= i < v@.len() && v@[i].0 == k,
{
    let es = t.entries();
    let mut out: Vec<(u64, R)> = Vec::new();
    let mut i: usize = 0;
    while i < es.len()
        invariant
            i <= es@.len(),
            out@.len() == i,
            forall|a: int| 0 <= a < i ==> #[trigger] out@[a].0 == es@[a].0,
            forall|a: int|
                0 <= a < i ==> encodes(t@[es@[a].0], #[trigger] out@[a].1.fields()),
            forall|a: int|
                0 <= a < es@.len() ==> t@.contains_key(#[trigger] es@[a].0) && t@[es@[a].0]
                    == es@[a].1@,
            forall|a: int, b: int| 0 <= a < b < es@.len() ==> es@[a].0 < es@[b].0,
            forall|k: u64| #[trigger]
                t@.contains_key(k) ==> exists|a: int| 0 <= a < es@.len() && es@[a].0 == k,
        decreases es@.len() - i,
    {
        let k = es[i].0;
        match from_bytes::<R>(&es[i].1) {
            Some(x) => {
                let ghost before = out@;
                out.push((k, x));
                proof {
                    assert forall|a: int| 0 <= a < i + 1 implies encodes(
                        t@[es@[a].0],
                        #[trigger] out@[a].1.fields(),
                    ) by {
                        if a < i {
                            assert(out@[a] == before[a]);
                        }
                    }
                }
            },
            None => {
                assert(t@.contains_key(es@[i as int].0) && !is_record::<R>(t@[es@[i as int].0]));
                return Err(StoreError::Fatal(Fatal::CorruptRecord));
            },
        }
        i += 1;
    }
    proof {
        assert forall|k: u64| t@.contains_key(k) implies is_record::<R>(#[trigger] t@[k]) by {
            let a = choose|a: int| 0 <= a < es@.len() && es@[a].0 == k;
            assert(out@[a].0 == k);
            assert(encodes(t@[k], out@[a].1.fields()));
        }
        assert forall|k: u64| #[trigger] t@.contains_key(k) implies exists|a: int|
            0 <= a < out@.len() && out@[a].0 == k by {
            let a = choose|a: int| 0 <= a < es@.len() && es@[a].0 == k;
            assert(out@[a].0 == k);
        }
        assert forall|a: int, b: int| 0 <= a < b < out@.len() implies out@[a].0 < out@[b].0 by {
            assert(out@[a].0 == es@[a].0);
            assert(out@[b].0 == es@[b].0);
        }
        assert forall|a: int| 0 <= a < out@.len() implies t@.contains_key(#[trigger] out@[a].0)
            && encodes(t@[out@[a].0], out@[a].1.fields()) by {
            assert(out@[a].0 == es@[a].0);
            assert(t@.contains_key(es@[a].0));
        }
    }
    let r: Result<Vec<(u64, R)>, StoreError> = Ok(out);
    assert(r matches Ok(v) && v@ == out@);
    r
}

/// A choice of records, decided by their fields alone.
pub trait Selector<R: Record> {
    spec fn keep(&self, x: R) -> bool;

    fn test(&self, x: &R) -> (b: bool)
        ensures
            b == self.keep(*x),
    ;

    proof fn keep_by_fields(&self, x: R, y: R)
        requires
            x.fields() == y.fields(),
        ensures
            self.keep(x) == self.keep(y),
    ;
}

/// Every record.
pub struct Everything;

impl<R: Record> Selector<R> for Everything {
    open spec fn keep(&self, x: R) -> bool {
        true
    }

    fn test(&self, x: &R) -> (b: bool) {
        true
    }

    proof fn keep_by_fields(&self, x: R, y: R) {
    }
}

/// The tutors owned by one user.
pub struct OwnedBy<'a> {
    pub owner: &'a Identity,
}

impl<'a> Selector<Tutor> for OwnedBy<'a> {
    open spec fn keep(&self, x: Tutor) -> bool {
        x.user_id@ == self.owner@
    }

    fn test(&self, x: &Tutor) -> (b: bool) {
        x.user_id.same(self.owner)
    }

    proof fn keep_by_fields(&self, x: Tutor, y: Tutor) {
        assert(x.fields()[2] == y.fields()[2]);
    }
}

/// The connections that one user takes part in, on either side.
pub struct Involving<'a> {
    pub user: &'a Identity,
}

impl<'a> Selector<UserConnection> for Involving<'a> {
    open spec fn keep(&self, x: UserConnection) -> bool {
        x.user1_id@ == self.user@ || x.user2_id@ == self.user@
    }

    fn test(&self, x: &UserConnection) -> (b: bool) {
        x.user1_id.same(self.user) || x.user2_id.same(self.user)
    }

    proof fn keep_by_fields(&self, x: UserConnection, y: UserConnection) {
        assert(x.fields()[1] == y.fields()[1]);
        assert(x.fields()[2] == y.fields()[2]);
    }
}

/// The memberships of one study group.
pub struct OfGroup {
    pub group: u64,
}

impl Selector<GroupMembership> for OfGroup {
    open spec fn keep(&self, x: GroupMembership) -> bool {
        x.group_id == self.group
    }

    fn test(&self, x: &GroupMembership) -> (b: bool) {
        x.group_id == self.group
    }

    proof fn keep_by_fields(&self, x: GroupMembership, y: GroupMembership) {
        assert(x.fields()[2] == y.fields()[2]);
    }
}

/// Reads the records that `sel` chooses, in ascending key order.
fn select<R: Record, S: Selector<R>>(t: &IdTable, sel: &S) -> (r: Result<Vec<R>, StoreError>)
    ensures
        has_unreadable::<R>(t@) ==> r == Err::<Vec<R>, StoreError>(
            StoreError::Fatal(Fatal::CorruptRecord),
        ),
        !has_unreadable::<R>(t@) ==> (r matches Ok(v) && lists(t@, |x: R| sel.keep(x), v@)),
{
    let ghost m = t@;
    let mut all = match load_all::<R>(t) {
        Ok(v) => v,
        Err(e) => {
            return Err(e);
        },
    };
    let ghost orig = all@;
    let ghost keep = |x: R| sel.keep(x);
    let mut out: Vec<R> = Vec::new();
    let ghost mut ks: Seq<u64> = Seq::empty();
    let n = all.len();
    let mut i: usize = 0;
    while i < n
        invariant
            n == orig.len(),
            i <= n,
            all@ == orig.skip(i as int),
            forall|a: int, b: int| 0 <= a < b < orig.len() ==> orig[a].0 < orig[b].0,
            forall|a: int|
                0 <= a < orig.len() ==> m.contains_key(#[trigger] orig[a].0) && encodes(
                    m[orig[a].0],
                    orig[a].1.fields(),
                ),
            forall|k: u64| #[trigger]
                m.contains_key(k) ==> exists|a: int| 0 <= a < orig.len() && orig[a].0 == k,
            ks.len() == out@.len(),
            forall|a: int, b: int| 0 <= a < b < ks.len() ==> ks[a] < ks[b],
            forall|a: int, j: int| 0 <= a < ks.len() && i <= j < n ==> ks[a] < orig[j].0,
            forall|a: int|
                0 <= a < ks.len() ==> m.contains_key(#[trigger] ks[a]) && encodes(
                    m[ks[a]],
                    out@[a].fields(),
                ),
            forall|j: int| 0 <= j < i ==> (sel.keep(#[trigger] orig[j].1) <==> ks.contains(orig[j].0)),
            forall|k: u64| #[trigger]
                ks.contains(k) ==> exists|j: int| 0 <= j < i && orig[j].0 == k,
        decreases n - i,
    {
        let (k, x) = all.remove(0);
        assert(orig[i as int] == (k, x));
        let ghost before = ks;
        if sel.test(&x) {
            out.push(x);
            proof {
                ks = ks.push(k);
                assert forall|k2: u64| #[trigger] ks.contains(k2) implies exists|j: int|
                    0 <= j < i + 1 && orig[j].0 == k2 by {
                    if k2 != k {
                        assert(before.contains(k2));
                    } else {
                        assert(orig[i as int].0 == k2);
                    }
                }
            }
        }
        proof {
            assert forall|j: int| 0 <= j < i + 1 implies (sel.keep(#[trigger] orig[j].1)
                <==> ks.contains(orig[j].0)) by {
                if j < i {
                    assert(orig[j].0 < k);
                    if ks.contains(orig[j].0) {
                        let idx = choose|idx: int| 0 <= idx < ks.len() && ks[idx] == orig[j].0;
                        if idx < before.len() {
                            assert(before[idx] == ks[idx]);
                            assert(before.contains(orig[j].0));
                        }
                    }
                    if before.contains(orig[j].0) {
                        let idx = choose|idx: int|
                            0 <= idx < before.len() && before[idx] == orig[j].0;
                        assert(ks[idx] == before[idx]);
                        assert(ks.contains(orig[j].0));
                    }
                } else {
                    if sel.keep(x) {
                        assert(ks[before.len() as int] == k);
                        assert(ks.contains(k));
                    } else {
                        if before.contains(k) {
                            let idx = choose|idx: int| 0 <= idx < before.len() && before[idx] == k;
                            assert(before[idx] < orig[i as int].0);
                        }
                    }
                }
            }
        }
        i += 1;
    }
    proof {
        assert forall|k: u64| m.contains_key(k) implies (keep(record_at::<R>(m, k))
            <==> #[trigger] ks.contains(k)) by {
            let a = choose|a: int| 0 <= a < orig.len() && orig[a].0 == k;
            lemma_record_round_trip(orig[a].1, m[k]);
            let y = record_at::<R>(m, k);
            assert(encodes(m[k], y.fields()));
            sel.keep_by_fields(y, orig[a].1);
        }
        assert(listed_under(m, keep, out@, ks));
    }
    Ok(out)
}

impl Store {
    /// Opens every table in its region and the identifier allocator; fails
    /// when the allocator's cell cannot be initialised.
    ///
    /// On a canister the regions live in the one stable memory of the
    /// process, so a second store opened in the same process would share
    /// them, and the table contracts, which take each table to be alone in
    /// its region, would not hold of it. A process opens the store once and
    /// keeps it for its lifetime.
    pub fn open() -> (r: Option<Store>) {
        let regions = RegionManager::init();
        let ids = match IdAllocator::open(&regions, ID_COUNTER_REGION) {
            Some(ids) => ids,
            None => {
                return None;
            },
        };
        Some(
            Store {
                users: KeyTable::open(regions.region(USER_REGION)),
                tutors: IdTable::open(regions.region(TUTOR_REGION)),
                tutor_sessions: IdTable::open(regions.region(TUTOR_SESSION_REGION)),
                learning_paths: IdTable::open(regions.region(LEARNING_PATH_REGION)),
                connections: IdTable::open(regions.region(CONNECTION_REGION)),
                connection_requests: IdTable::open(regions.region(CONNECTION_REQUEST_REGION)),
                study_groups: IdTable::open(regions.region(STUDY_GROUP_REGION)),
                group_memberships: IdTable::open(regions.region(GROUP_MEMBERSHIP_REGION)),
                subscription_plans: IdTable::open(regions.region(SUBSCRIPTION_PLAN_REGION)),
                user_subscriptions: IdTable::open(regions.region(USER_SUBSCRIPTION_REGION)),
                payment_transactions: IdTable::open(regions.region(PAYMENT_TRANSACTION_REGION)),
                achievements: IdTable::open(regions.region(ACHIEVEMENT_REGION)),
                user_achievements: IdTable::open(regions.region(USER_ACHIEVEMENT_REGION)),
                tasks: IdTable::open(regions.region(TASK_REGION)),
                user_task_completions: IdTable::open(regions.region(USER_TASK_COMPLETION_REGION)),
                ids,
            },
        )
    }

    /// Mints the next identifier of `kind`.
    fn mint(&mut self, kind: EntityKind) -> (r: Result<u64, StoreError>)
        ensures
            mint_outcome(old(self).ids(), kind, r),
            r is Err ==> unchanged(*old(self), *final(self)),
            r matches Ok(id) ==> minted(old(self).ids(), kind, final(self).ids(), id),
            changes_only(*old(self), *final(self), set![Part::Ids]),
    {
        match self.ids.next(kind) {
            Ok(id) => Ok(id),
            Err(f) => Err(StoreError::Fatal(f)),
        }
    }

    /// Stores a new user for `caller` with default settings, replacing any
    /// user already stored for that identity.
    pub fn create_user(&mut self, caller: &Identity, username: String, email: String, now: u64) -> (r: User)
        requires
            caller@.len() <= 29,
        ensures
            ids_step(old(self).ids(), final(self).ids()),
            new_user(r, caller@, username@, email@, now),
            final(self).users() == old(self).users().insert(user_key(caller@), stored(r)),
            keeps_user(final(self).users(), user_key(caller@), r),
            changes_only(*old(self), *final(self), set![Part::Users]),
    {
        let settings = UserSettings {
            learning_style: "visual".to_owned(),
            preferred_language: "en".to_owned(),
            difficulty_level: "intermediate".to_owned(),
            daily_goal_hours: 1,
            two_factor_enabled: false,
            font_size: "medium".to_owned(),
            contrast: "normal".to_owned(),
            ai_interaction_style: "casual".to_owned(),
            profile_visibility: "public".to_owned(),
            activity_sharing: "connections".to_owned(),
        };
        let user = User {
            id: caller.duplicate(),
            public_id: principal_text_of(&caller.bytes),
            email,
            username,
            first_name: None,
            last_name: None,
            is_active: true,
            is_verified: false,
            created_at: now,
            updated_at: now,
            last_login: None,
            oauth_provider: None,
            oauth_id: None,
            avatar_url: None,
            bio: None,
            blockchain_wallet_address: None,
            blockchain_wallet_type: None,
            blockchain_wallet_connected_at: None,
            wallet_address: None,
            public_key: None,
            role: "user".to_owned(),
            status: "active".to_owned(),
            location: None,
            subscription: "free".to_owned(),
            last_active: now,
            settings,
        };
        save_user(&mut self.users, user_key_of(caller), &user);
        user
    }

    /// Creates a tutor owned by `caller` under a fresh identifier.
    pub fn create_tutor(
        &mut self,
        caller: &Identity,
        name: String,
        description: String,
        teaching_style: String,
        personality: String,
        expertise: Vec<String>,
        now: u64,
    ) -> (r: Result<Tutor, StoreError>)
        ensures
            ids_step(old(self).ids(), final(self).ids()),
            mint_outcome(old(self).ids(), EntityKind::Tutor, r),
            r is Err ==> unchanged(*old(self), *final(self)),
            r matches Ok(t) ==> {
                &&& minted(old(self).ids(), EntityKind::Tutor, final(self).ids(), t.id)
                &&& new_tutor(
                    t,
                    caller@,
                    name@,
                    description@,
                    teaching_style@,
                    personality@,
                    expertise.deep_view(),
                    now,
                )
                &&& final(self).tutors() == old(self).tutors().insert(t.id, stored(t))
                &&& keeps(final(self).tutors(), t.id, t)
                &&& t.wf()
                &&& changes_only(*old(self), *final(self), set![Part::Tutors, Part::Ids])
            },
    {
        let id = match self.mint(EntityKind::Tutor) {
            Ok(id) => id,
            Err(e) => {
                return Err(e);
            },
        };
        let tutor = Tutor {
            id,
            public_id: decimal_text(id),
            user_id: caller.duplicate(),
            name,
            description,
            teaching_style,
            personality,
            expertise,
            knowledge_base: Vec::new(),
            is_pinned: false,
            avatar_url: None,
            voice_id: None,
            voice_settings: Vec::new(),
            created_at: now,
            updated_at: now,
        };
        save(&mut self.tutors, id, &tutor);
        Ok(tutor)
    }

    /// Records a pending request from `caller` to connect with `receiver`.
    /// A request to oneself is refused and nothing is stored. An existing
    /// connection or pending request between the two is not looked for.
    pub fn send_connection_request(
        &mut self,
        caller: &Identity,
        receiver: Identity,
        message: Option<String>,
        now: u64,
    ) -> (r: Result<ConnectionRequest, StoreError>)
        ensures
            ids_step(old(self).ids(), final(self).ids()),
            caller@ == receiver@ ==> r == Err::<ConnectionRequest, StoreError>(
                StoreError::InvalidArgument,
            ),
            caller@ != receiver@ ==> mint_outcome(
                old(self).ids(),
                EntityKind::ConnectionRequest,
                r,
            ),
            r is Err ==> unchanged(*old(self), *final(self)),
            r matches Ok(q) ==> {
                &&& minted(old(self).ids(), EntityKind::ConnectionRequest, final(self).ids(), q.id)
                &&& q.sender_id@ == caller@
                &&& q.receiver_id@ == receiver@
                &&& q.status@ == "pending"@
                &&& q.message == message
                &&& q.created_at == now
                &&& q.updated_at == now
                &&& q.responded_at is None
                &&& final(self).connection_requests() == old(self).connection_requests().insert(
                    q.id,
                    stored(q),
                )
                &&& keeps(final(self).connection_requests(), q.id, q)
                &&& changes_only(
                    *old(self),
                    *final(self),
                    set![Part::ConnectionRequests, Part::Ids],
                )
            },
    {
        if caller.same(&receiver) {
            return Err(StoreError::InvalidArgument);
        }
        let id = match self.mint(EntityKind::ConnectionRequest) {
            Ok(id) => id,
            Err(e) => {
                return Err(e);
            },
        };
        let request = ConnectionRequest {
            id,
            sender_id: caller.duplicate(),
            receiver_id: receiver,
            status: "pending".to_owned(),
            message,
            created_at: now,
            updated_at: now,
            responded_at: None,
        };
        save(&mut self.connection_requests, id, &request);
        Ok(request)
    }

    /// Accepts request `request_id` on behalf of its receiver: marks it
    /// accepted with the response time, then creates the connection between
    /// its sender and receiver. The two writes are not coupled: when minting
    /// the connection's identifier fails, the request stays accepted.
    pub fn accept_connection_request(&mut self, caller: &Identity, request_id: u64, now: u64) -> (r:
        Result<UserConnection, StoreError>)
        ensures
            ids_step(old(self).ids(), final(self).ids()),
            accept_refusal(*old(self), caller@, request_id) matches Some(e) ==> r == Err::<
                UserConnection,
                StoreError,
            >(e) && unchanged(*old(self), *final(self)),
            accept_refusal(*old(self), caller@, request_id) is None ==> {
                let q = record_at::<ConnectionRequest>(old(self).connection_requests(), request_id);
                &&& final(self).connection_requests() == old(self).connection_requests().insert(
                    request_id,
                    enc_fields(accepted_fields(q, now)),
                )
                &&& is_record::<ConnectionRequest>(final(self).connection_requests()[request_id])
                &&& record_at::<ConnectionRequest>(
                    final(self).connection_requests(),
                    request_id,
                ).fields() == accepted_fields(q, now)
                &&& mint_outcome(old(self).ids(), EntityKind::Connection, r)
                &&& r is Err ==> changes_only(
                    *old(self),
                    *final(self),
                    set![Part::ConnectionRequests],
                )
                &&& r matches Ok(c) ==> {
                    &&& minted(old(self).ids(), EntityKind::Connection, final(self).ids(), c.id)
                    &&& c.user1_id@ == q.sender_id@
                    &&& c.user2_id@ == q.receiver_id@
                    &&& c.status@ == "active"@
                    &&& c.created_at == now
                    &&& c.updated_at == now
                    &&& final(self).connections() == old(self).connections().insert(c.id, stored(c))
                    &&& keeps(final(self).connections(), c.id, c)
                    &&& changes_only(
                        *old(self),
                        *final(self),
                        set![Part::ConnectionRequests, Part::Connections, Part::Ids],
                    )
                }
            },
    {
        let ghost m = self.connection_requests();
        let request: ConnectionRequest = match load(&self.connection_requests, request_id) {
            Ok(Some(q)) => q,
            Ok(None) => {
                return Err(StoreError::NotFound);
            },
            Err(e) => {
                return Err(e);
            },
        };
        proof {
            lemma_record_round_trip(request, m[request_id]);
            let q = record_at::<ConnectionRequest>(m, request_id);
            assert(encodes(m[request_id], q.fields()));
            assert(q.fields() == request.fields());
            assert(q.fields()[2] == request.fields()[2]);
            assert(q.fields()[3] == request.fields()[3]);
        }
        if !request.receiver_id.same(caller) {
            return Err(StoreError::Unauthorized);
        }
        if !str_eq(request.status.as_str(), "pending") {
            return Err(StoreError::InvalidState);
        }
        let sender = request.sender_id.duplicate();
        let receiver = request.receiver_id.duplicate();
        let updated = ConnectionRequest {
            id: request.id,
            sender_id: request.sender_id,
            receiver_id: request.receiver_id,
            status: "accepted".to_owned(),
            message: request.message,
            created_at: request.created_at,
            updated_at: request.updated_at,
            responded_at: Some(now),
        };
        proof {
            let q = record_at::<ConnectionRequest>(m, request_id);
            assert(updated.fields() =~= accepted_fields(q, now));
        }
        save(&mut self.connection_requests, request_id, &updated);
        proof {
            lemma_store_then_load(m, request_id, updated, self.connection_requests());
        }
        let id = match self.mint(EntityKind::Connection) {
            Ok(id) => id,
            Err(e) => {
                return Err(e);
            },
        };
        let connection = UserConnection {
            id,
            user1_id: sender,
            user2_id: receiver,
            status: "active".to_owned(),
            created_at: now,
            updated_at: now,
        };
        save(&mut self.connections, id, &connection);
        Ok(connection)
    }

    /// Creates a study group with `caller` as its creator, then makes
    /// `caller` its first member, with the role "admin". The two writes are
    /// not coupled: when minting the membership's identifier fails, the
    /// group stays stored without it.
    pub fn create_study_group(
        &mut self,
        caller: &Identity,
        name: String,
        description: Option<String>,
        is_private: bool,
        max_members: u32,
        learning_level: String,
        now: u64,
    ) -> (r: Result<StudyGroup, StoreError>)
        ensures
            ids_step(old(self).ids(), final(self).ids()),
            mint_blocked(old(self).ids(), EntityKind::StudyGroup) matches Some(f) ==> r == Err::<
                StudyGroup,
                StoreError,
            >(StoreError::Fatal(f)) && unchanged(*old(self), *final(self)),
            mint_blocked(old(self).ids(), EntityKind::StudyGroup) is None ==> mint_outcome(
                old(self).ids(),
                EntityKind::GroupMembership,
                r,
            ) || r == Err::<StudyGroup, StoreError>(StoreError::Fatal(Fatal::WriteFailed)),
            r is Err ==> (r matches Err(StoreError::Fatal(_))),
            r is Err ==> final(self).group_memberships() == old(self).group_memberships(),
            r is Err ==> changes_only(*old(self), *final(self), set![Part::StudyGroups, Part::Ids]),
            r matches Ok(g) ==> {
                let mid = counter_in(final(self).ids(), EntityKind::GroupMembership);
                &&& minted_two(
                    old(self).ids(),
                    EntityKind::StudyGroup,
                    g.id,
                    EntityKind::GroupMembership,
                    mid,
                    final(self).ids(),
                )
                &&& new_group(
                    g,
                    caller@,
                    name@,
                    description,
                    is_private,
                    max_members,
                    learning_level@,
                    now,
                )
                &&& final(self).study_groups() == old(self).study_groups().insert(g.id, stored(g))
                &&& keeps(final(self).study_groups(), g.id, g)
                &&& final(self).group_memberships() == old(self).group_memberships().insert(
                    mid,
                    enc_fields(membership_fields(mid, caller@, g.id, "admin"@, now)),
                )
                &&& is_record::<GroupMembership>(final(self).group_memberships()[mid])
                &&& record_at::<GroupMembership>(final(self).group_memberships(), mid).fields()
                    == membership_fields(mid, caller@, g.id, "admin"@, now)
                &&& changes_only(
                    *old(self),
                    *final(self),
                    set![Part::StudyGroups, Part::GroupMemberships, Part::Ids],
                )
            },
    {
        let ghost ids0 = self.ids();
        let group_id = match self.mint(EntityKind::StudyGroup) {
            Ok(id) => id,
            Err(e) => {
                return Err(e);
            },
        };
        let group = StudyGroup {
            id: group_id,
            public_id: decimal_text(group_id),
            name,
            description,
            creator_id: caller.duplicate(),
            topic_id: None,
            is_private,
            max_members,
            learning_level,
            meeting_frequency: None,
            goals: None,
            created_at: now,
            updated_at: now,
        };
        save(&mut self.study_groups, group_id, &group);
        let ghost ids1 = self.ids();
        assert(mint_blocked(ids1, EntityKind::GroupMembership) == mint_blocked(
            ids0,
            EntityKind::GroupMembership,
        ));
        let membership_id = match self.mint(EntityKind::GroupMembership) {
            Ok(id) => id,
            Err(e) => {
                return Err(e);
            },
        };
        let membership = GroupMembership {
            id: membership_id,
            user_id: caller.duplicate(),
            group_id,
            role: "admin".to_owned(),
            status: "active".to_owned(),
            joined_at: now,
            contributions: 0,
            last_active_at: Some(now),
        };
        assert(membership.fields() =~= membership_fields(
            membership_id,
            caller@,
            group_id,
            "admin"@,
            now,
        ));
        let ghost ms0 = self.group_memberships();
        save(&mut self.group_memberships, membership_id, &membership);
        proof {
            lemma_store_then_load(ms0, membership_id, membership, self.group_memberships());
        }
        Ok(group)
    }

    /// Makes `caller` a member of group `group_id`. Duplicate memberships,
    /// private groups and the member limit are not checked.
    pub fn join_study_group(&mut self, caller: &Identity, group_id: u64, now: u64) -> (r: Result<
        GroupMembership,
        StoreError,
    >)
        ensures
            ids_step(old(self).ids(), final(self).ids()),
            !old(self).study_groups().contains_key(group_id) ==> r == Err::<
                GroupMembership,
                StoreError,
            >(StoreError::NotFound),
            old(self).study_groups().contains_key(group_id) && !is_record::<StudyGroup>(
                old(self).study_groups()[group_id],
            ) ==> r == Err::<GroupMembership, StoreError>(StoreError::Fatal(Fatal::CorruptRecord)),
            old(self).study_groups().contains_key(group_id) && is_record::<StudyGroup>(
                old(self).study_groups()[group_id],
            ) ==> mint_outcome(old(self).ids(), EntityKind::GroupMembership, r),
            r is Err ==> unchanged(*old(self), *final(self)),
            r matches Ok(ms) ==> {
                &&& minted(old(self).ids(), EntityKind::GroupMembership, final(self).ids(), ms.id)
                &&& ms.fields() == membership_fields(ms.id, caller@, group_id, "member"@, now)
                &&& final(self).group_memberships() == old(self).group_memberships().insert(
                    ms.id,
                    stored(ms),
                )
                &&& keeps(final(self).group_memberships(), ms.id, ms)
                &&& changes_only(*old(self), *final(self), set![Part::GroupMemberships, Part::Ids])
            },
    {
        match load::<StudyGroup>(&self.study_groups, group_id) {
            Ok(Some(_)) => {},
            Ok(None) => {
                return Err(StoreError::NotFound);
            },
            Err(e) => {
                return Err(e);
            },
        }
        let id = match self.mint(EntityKind::GroupMembership) {
            Ok(id) => id,
            Err(e) => {
                return Err(e);
            },
        };
        let membership = GroupMembership {
            id,
            user_id: caller.duplicate(),
            group_id,
            role: "member".to_owned(),
            status: "active".to_owned(),
            joined_at: now,
            contributions: 0,
            last_active_at: Some(now),
        };
        assert(membership.fields() =~= membership_fields(id, caller@, group_id, "member"@, now));
        save(&mut self.group_memberships, id, &membership);
        Ok(membership)
    }

    /// Creates a task, created by `caller`, under a fresh identifier.
    pub fn create_task(
        &mut self,
        caller: &Identity,
        title: String,
        description: String,
        category: String,
        difficulty: String,
        token_reward: u32,
        points_reward: u32,
        now: u64,
    ) -> (r: Result<Task, StoreError>)
        ensures
            ids_step(old(self).ids(), final(self).ids()),
            mint_outcome(old(self).ids(), EntityKind::Task, r),
            r is Err ==> unchanged(*old(self), *final(self)),
            r matches Ok(t) ==> {
                &&& minted(old(self).ids(), EntityKind::Task, final(self).ids(), t.id)
                &&& new_task(
                    t,
                    caller@,
                    title@,
                    description@,
                    category@,
                    difficulty@,
                    token_reward,
                    points_reward,
                    now,
                )
                &&& final(self).tasks() == old(self).tasks().insert(t.id, stored(t))
                &&& keeps(final(self).tasks(), t.id, t)
                &&& t.wf()
                &&& changes_only(*old(self), *final(self), set![Part::Tasks, Part::Ids])
            },
    {
        let id = match self.mint(EntityKind::Task) {
            Ok(id) => id,
            Err(e) => {
                return Err(e);
            },
        };
        let task = Task {
            id,
            public_id: decimal_text(id),
            title,
            description,
            category,
            difficulty,
            token_reward,
            points_reward,
            requirements: None,
            is_active: true,
            is_repeatable: false,
            max_completions: 1,
            created_by: caller.duplicate(),
            created_at: now,
            expires_at: None,
            metadata: None,
        };
        save(&mut self.tasks, id, &task);
        Ok(task)
    }

    /// Records that `caller` completed task `task_id`, crediting the task's
    /// rewards. Every call records one more completion: earlier completions
    /// are not looked for, and no balance is updated here.
    pub fn complete_task(&mut self, caller: &Identity, task_id: u64, now: u64) -> (r: Result<
        UserTaskCompletion,
        StoreError,
    >)
        ensures
            ids_step(old(self).ids(), final(self).ids()),
            !old(self).tasks().contains_key(task_id) ==> r == Err::<UserTaskCompletion, StoreError>(
                StoreError::NotFound,
            ),
            old(self).tasks().contains_key(task_id) && !is_record::<Task>(
                old(self).tasks()[task_id],
            ) ==> r == Err::<UserTaskCompletion, StoreError>(
                StoreError::Fatal(Fatal::CorruptRecord),
            ),
            old(self).tasks().contains_key(task_id) && is_record::<Task>(old(self).tasks()[task_id])
                ==> mint_outcome(old(self).ids(), EntityKind::UserTaskCompletion, r),
            r is Err ==> unchanged(*old(self), *final(self)),
            r matches Ok(c) ==> {
                let t = record_at::<Task>(old(self).tasks(), task_id);
                &&& minted(
                    old(self).ids(),
                    EntityKind::UserTaskCompletion,
                    final(self).ids(),
                    c.id,
                )
                &&& c.user_id@ == caller@
                &&& c.task_id == task_id
                &&& c.completed_at == now
                &&& c.tokens_earned == t.token_reward
                &&& c.points_earned == t.points_reward
                &&& c.completion_count == 1
                &&& c.proof_data is None
                &&& c.metadata is None
                &&& final(self).user_task_completions() == old(self).user_task_completions().insert(
                    c.id,
                    stored(c),
                )
                &&& keeps(final(self).user_task_completions(), c.id, c)
                &&& c.wf()
                &&& changes_only(
                    *old(self),
                    *final(self),
                    set![Part::UserTaskCompletions, Part::Ids],
                )
            },
    {
        let ghost m = self.tasks();
        let task: Task = match load(&self.tasks, task_id) {
            Ok(Some(t)) => t,
            Ok(None) => {
                return Err(StoreError::NotFound);
            },
            Err(e) => {
                return Err(e);
            },
        };
        proof {
            lemma_record_round_trip(task, m[task_id]);
            let t = record_at::<Task>(m, task_id);
            assert(encodes(m[task_id], t.fields()));
            assert(t.fields() == task.fields());
            assert(t.fields()[6] == task.fields()[6]);
            assert(t.fields()[7] == task.fields()[7]);
        }
        let id = match self.mint(EntityKind::UserTaskCompletion) {
            Ok(id) => id,
            Err(e) => {
                return Err(e);
            },
        };
        let completion = UserTaskCompletion {
            id,
            user_id: caller.duplicate(),
            task_id,
            completed_at: now,
            tokens_earned: task.token_reward,
            points_earned: task.points_reward,
            completion_count: 1,
            proof_data: None,
            metadata: None,
        };
        save(&mut self.user_task_completions, id, &completion);
        Ok(completion)
    }

    /// The tutors that `caller` owns, in ascending identifier order.
    pub fn get_tutors(&self, caller: &Identity) -> (r: Result<Vec<Tutor>, StoreError>)
        ensures
            has_unreadable::<Tutor>(self.tutors()) ==> r == Err::<Vec<Tutor>, StoreError>(
                StoreError::Fatal(Fatal::CorruptRecord),
            ),
            !has_unreadable::<Tutor>(self.tutors()) ==> (r matches Ok(v) && lists(
                self.tutors(),
                |t: Tutor| t.user_id@ == caller@,
                v@,
            )),
    {
        let sel = OwnedBy { owner: caller };
        let r = select(&self.tutors, &sel);
        proof {
            assert((|t: Tutor| t.user_id@ == caller@) =~= (|x: Tutor| sel.keep(x)));
        }
        r
    }

    /// The connections that `caller` takes part in, on either side, in
    /// ascending identifier order.
    pub fn get_connections(&self, caller: &Identity) -> (r: Result<Vec<UserConnection>, StoreError>)
        ensures
            has_unreadable::<UserConnection>(self.connections()) ==> r == Err::<
                Vec<UserConnection>,
                StoreError,
            >(StoreError::Fatal(Fatal::CorruptRecord)),
            !has_unreadable::<UserConnection>(self.connections()) ==> (r matches Ok(v) && lists(
                self.connections(),
                |c: UserConnection| c.user1_id@ == caller@ || c.user2_id@ == caller@,
                v@,
            )),
    {
        let sel = Involving { user: caller };
        let r = select(&self.connections, &sel);
        proof {
            assert((|c: UserConnection| c.user1_id@ == caller@ || c.user2_id@ == caller@) =~= (|
                x: UserConnection,
            | sel.keep(x)));
        }
        r
    }

    /// Every task, in ascending identifier order.
    pub fn get_tasks(&self) -> (r: Result<Vec<Task>, StoreError>)
        ensures
            has_unreadable::<Task>(self.tasks()) ==> r == Err::<Vec<Task>, StoreError>(
                StoreError::Fatal(Fatal::CorruptRecord),
            ),
            !has_unreadable::<Task>(self.tasks()) ==> (r matches Ok(v) && lists(
                self.tasks(),
                |t: Task| true,
                v@,
            )),
    {
        let sel = Everything;
        let r = select(&self.tasks, &sel);
        proof {
            assert((|t: Task| true) =~= (|x: Task| <Everything as Selector<Task>>::keep(&sel, x)));
        }
        r
    }

    /// The user stored for `caller`.
    pub fn get_self(&self, caller: &Identity) -> (r: Result<Option<User>, StoreError>)
        ensures
            read_user_as(self.users(), user_key(caller@), r),
    {
        load_user(&self.users, &user_key_of(caller))
    }

    /// Whether `who` is an administrator.
    pub fn is_admin(&self, who: &Identity) -> (r: Result<bool, StoreError>)
        ensures
            r == admin_status(self.users(), who@),
    {
        let ghost m = self.users();
        let ghost k = user_key(who@);
        match load_user(&self.users, &user_key_of(who)) {
            Ok(Some(u)) => {
                proof {
                    lemma_record_round_trip(u, m[k]);
                    let y = user_at(m, k);
                    assert(encodes(m[k], y.fields()));
                    assert(y.fields()[20] == u.fields()[20]);
                }
                Ok(str_eq(u.role.as_str(), "admin"))
            },
            Ok(None) => Ok(false),
            Err(e) => Err(e),
        }
    }

    /// Every user, in ascending key order; for administrators only.
    pub fn get_all_users_admin(&self, caller: &Identity) -> (r: Result<Vec<User>, StoreError>)
        ensures
            admin_refusal(self.users(), caller@) matches Some(e) ==> r == Err::<
                Vec<User>,
                StoreError,
            >(e),
            admin_refusal(self.users(), caller@) is None && has_unreadable_user(self.users()) ==> r
                == Err::<Vec<User>, StoreError>(StoreError::Fatal(Fatal::CorruptRecord)),
            admin_refusal(self.users(), caller@) is None && !has_unreadable_user(self.users()) ==> (
            r matches Ok(v) && lists_users(self.users(), v@)),
    {
        match self.is_admin(caller) {
            Ok(true) => {},
            Ok(false) => {
                return Err(StoreError::Unauthorized);
            },
            Err(e) => {
                return Err(e);
            },
        }
        load_all_users(&self.users)
    }

    /// Sets the status of the user `user_id`; for administrators only.
    pub fn update_user_status_admin(&mut self, caller: &Identity, user_id: &Identity, status: String) -> (r:
        Result<User, StoreError>)
        ensures
            ids_step(old(self).ids(), final(self).ids()),
            admin_refusal(old(self).users(), caller@) matches Some(e) ==> r == Err::<User, StoreError>(
                e,
            ),
            admin_refusal(old(self).users(), caller@) is None && !old(self).users().contains_key(
                user_key(user_id@),
            ) ==> r == Err::<User, StoreError>(StoreError::NotFound),
            admin_refusal(old(self).users(), caller@) is None && old(self).users().contains_key(
                user_key(user_id@),
            ) && !is_record::<User>(old(self).users()[user_key(user_id@)]) ==> r == Err::<User, StoreError>(
                StoreError::Fatal(Fatal::CorruptRecord),
            ),
            admin_refusal(old(self).users(), caller@) is None && old(self).users().contains_key(
                user_key(user_id@),
            ) && is_record::<User>(old(self).users()[user_key(user_id@)]) ==> r is Ok,
            r is Err ==> unchanged(*old(self), *final(self)),
            r matches Ok(u) ==> {
                &&& admin_refusal(old(self).users(), caller@) is None
                &&& u.fields() == user_at(old(self).users(), user_key(user_id@)).fields().update(
                    21,
                    Field::Text(status@),
                )
                &&& final(self).users() == old(self).users().insert(user_key(user_id@), stored(u))
                &&& keeps_user(final(self).users(), user_key(user_id@), u)
                &&& changes_only(*old(self), *final(self), set![Part::Users])
            },
    {
        match self.is_admin(caller) {
            Ok(true) => {},
            Ok(false) => {
                return Err(StoreError::Unauthorized);
            },
            Err(e) => {
                return Err(e);
            },
        }
        let ghost m = self.users();
        let ghost k = user_key(user_id@);
        let key = user_key_of(user_id);
        let user = match load_user(&self.users, &key) {
            Ok(Some(u)) => u,
            Ok(None) => {
                return Err(StoreError::NotFound);
            },
            Err(e) => {
                return Err(e);
            },
        };
        proof {
            lemma_record_round_trip(user, m[k]);
            let y = user_at(m, k);
            assert(encodes(m[k], y.fields()));
        }
        let user = user.with_status(status);
        save_user(&mut self.users, key, &user);
        Ok(user)
    }

    /// Admits only administrators; creating plans is not offered yet.
    pub fn create_subscription_plan_admin(&self, caller: &Identity) -> (r: Result<(), StoreError>)
        ensures
            admin_refusal(self.users(), caller@) matches Some(e) ==> r == Err::<(), StoreError>(e),
            admin_refusal(self.users(), caller@) is None ==> r == Ok::<(), StoreError>(()),
    {
        match self.is_admin(caller) {
            Ok(true) => Ok(()),
            Ok(false) => Err(StoreError::Unauthorized),
            Err(e) => Err(e),
        }
    }

    /// Mints the next identifier for the entity kind named `entity`.
    pub fn next_id(&mut self, entity: &str) -> (r: Result<u64, Fatal>)
        requires
            exists|k: EntityKind| #[trigger] k.name() == entity@,
        ensures
            ids_step(old(self).ids(), final(self).ids()),
            forall|k: EntityKind|
                #[trigger] k.name() == entity@ ==> {
                    &&& !intact(old(self).ids()) ==> r == Err::<u64, Fatal>(Fatal::CorruptRecord)
                    &&& intact(old(self).ids()) && counter_in(old(self).ids(), k) == u64::MAX ==> r
                        == Err::<u64, Fatal>(Fatal::CounterExhausted)
                    &&& intact(old(self).ids()) && counter_in(old(self).ids(), k) < u64::MAX ==> (r
                        is Ok || r == Err::<u64, Fatal>(Fatal::WriteFailed))
                    &&& r matches Ok(id) ==> minted(old(self).ids(), k, final(self).ids(), id)
                },
            r is Err ==> unchanged(*old(self), *final(self)),
            changes_only(*old(self), *final(self), set![Part::Ids]),
    {
        next_id(&mut self.ids, entity)
    }

    /// The connection request with identifier `id`.
    pub fn get_connection_request(&self, id: u64) -> (r: Result<Option<ConnectionRequest>, StoreError>)
        ensures
            read_as(self.connection_requests(), id, r),
    {
        load(&self.connection_requests, id)
    }

    /// The memberships of group `group_id`, in ascending identifier order.
    pub fn get_group_memberships(&self, group_id: u64) -> (r: Result<Vec<GroupMembership>, StoreError>)
        ensures
            has_unreadable::<GroupMembership>(self.group_memberships()) ==> r == Err::<
                Vec<GroupMembership>,
                StoreError,
            >(StoreError::Fatal(Fatal::CorruptRecord)),
            !has_unreadable::<GroupMembership>(self.group_memberships()) ==> (r matches Ok(v)
                && lists(self.group_memberships(), |m: GroupMembership| m.group_id == group_id, v@)),
    {
        let sel = OfGroup { group: group_id };
        let r = select(&self.group_memberships, &sel);
        proof {
            assert((|m: GroupMembership| m.group_id == group_id) =~= (|x: GroupMembership|
                sel.keep(x)));
        }
        r
    }

    /// The tutor with identifier `id`.
    pub fn get_tutor(&self, id: u64) -> (r: Result<Option<Tutor>, StoreError>)
        ensures
            read_as(self.tutors(), id, r),
    {
        load(&self.tutors, id)
    }

    /// The study group with identifier `id`.
    pub fn get_study_group(&self, id: u64) -> (r: Result<Option<StudyGroup>, StoreError>)
        ensures
            read_as(self.study_groups(), id, r),
    {
        load(&self.study_groups, id)
    }
}

} // verus!
