//! The identifier allocator: one counter per entity kind, kept as one record
//! in a cell of its own, from which fresh identifiers are minted.
use crate::codec::{Field, FieldVal, encodes, fields_view, lemma_encoding_injective};
use crate::error::Fatal;
use crate::record::{Record, from_bytes, is_record, nat_at, to_bytes};
use crate::storage::{RecordCell, RegionManager};
use crate::text::str_eq;
use vstd::prelude::*;

verus! {

/// The kinds of entity that are named by minted identifiers.
#[derive(Clone, Copy, PartialEq, Eq, Structural)]
pub enum EntityKind {
    Tutor,
    TutorSession,
    LearningPath,
    Connection,
    ConnectionRequest,
    StudyGroup,
    GroupMembership,
    SubscriptionPlan,
    UserSubscription,
    PaymentTransaction,
    Achievement,
    UserAchievement,
    Task,
    UserTaskCompletion,
}

impl EntityKind {
    /// The name by which callers ask for an identifier of this kind.
    pub open spec fn name(self) -> Seq<char> {
        match self {
            EntityKind::Tutor => "tutor"@,
            EntityKind::TutorSession => "tutor_session"@,
            EntityKind::LearningPath => "learning_path"@,
            EntityKind::Connection => "connection"@,
            EntityKind::ConnectionRequest => "connection_request"@,
            EntityKind::StudyGroup => "study_group"@,
            EntityKind::GroupMembership => "group_membership"@,
            EntityKind::SubscriptionPlan => "subscription_plan"@,
            EntityKind::UserSubscription => "user_subscription"@,
            EntityKind::PaymentTransaction => "payment_transaction"@,
            EntityKind::Achievement => "achievement"@,
            EntityKind::UserAchievement => "user_achievement"@,
            EntityKind::Task => "task"@,
            EntityKind::UserTaskCompletion => "user_task_completion"@,
        }
    }

    /// The kind with the given name.
    pub fn from_name(name: &str) -> (r: Option<EntityKind>)
        ensures
            match r {
                Some(k) => k.name() == name@,
                None => forall|k: EntityKind| #[trigger] k.name() != name@,
            },
    {
        if str_eq(name, "tutor") {
            return Some(EntityKind::Tutor);
        }
        if str_eq(name, "tutor_session") {
            return Some(EntityKind::TutorSession);
        }
        if str_eq(name, "learning_path") {
            return Some(EntityKind::LearningPath);
        }
        if str_eq(name, "connection") {
            return Some(EntityKind::Connection);
        }
        if str_eq(name, "connection_request") {
            return Some(EntityKind::ConnectionRequest);
        }
        if str_eq(name, "study_group") {
            return Some(EntityKind::StudyGroup);
        }
        if str_eq(name, "group_membership") {
            return Some(EntityKind::GroupMembership);
        }
        if str_eq(name, "subscription_plan") {
            return Some(EntityKind::SubscriptionPlan);
        }
        if str_eq(name, "user_subscription") {
            return Some(EntityKind::UserSubscription);
        }
        if str_eq(name, "payment_transaction") {
            return Some(EntityKind::PaymentTransaction);
        }
        if str_eq(name, "achievement") {
            return Some(EntityKind::Achievement);
        }
        if str_eq(name, "user_achievement") {
            return Some(EntityKind::UserAchievement);
        }
        if str_eq(name, "task") {
            return Some(EntityKind::Task);
        }
        if str_eq(name, "user_task_completion") {
            return Some(EntityKind::UserTaskCompletion);
        }
        proof {
            assert forall|k: EntityKind| #[trigger] k.name() != name@ by {
                match k {
                    EntityKind::Tutor => {},
                    EntityKind::TutorSession => {},
                    EntityKind::LearningPath => {},
                    EntityKind::Connection => {},
                    EntityKind::ConnectionRequest => {},
                    EntityKind::StudyGroup => {},
                    EntityKind::GroupMembership => {},
                    EntityKind::SubscriptionPlan => {},
                    EntityKind::UserSubscription => {},
                    EntityKind::PaymentTransaction => {},
                    EntityKind::Achievement => {},
                    EntityKind::UserAchievement => {},
                    EntityKind::Task => {},
                    EntityKind::UserTaskCompletion => {},
                }
            }
        }
        None
    }
}

/// The last identifier minted for each entity kind; zero before the first.
#[derive(Clone, Copy, PartialEq, Eq, Structural)]
pub struct IdCounters {
    pub tutor: u64,
    pub tutor_session: u64,
    pub learning_path: u64,
    pub connection: u64,
    pub connection_request: u64,
    pub study_group: u64,
    pub group_membership: u64,
    pub subscription_plan: u64,
    pub user_subscription: u64,
    pub payment_transaction: u64,
    pub achievement: u64,
    pub user_achievement: u64,
    pub task: u64,
    pub user_task_completion: u64,
}
impl Record for IdCounters {
    open spec fn fields(&self) -> Seq<Field> {
        seq![
            Field::Nat(self.tutor),
            Field::Nat(self.tutor_session),
            Field::Nat(self.learning_path),
            Field::Nat(self.connection),
            Field::Nat(self.connection_request),
            Field::Nat(self.study_group),
            Field::Nat(self.group_membership),
            Field::Nat(self.subscription_plan),
            Field::Nat(self.user_subscription),
            Field::Nat(self.payment_transaction),
            Field::Nat(self.achievement),
            Field::Nat(self.user_achievement),
            Field::Nat(self.task),
            Field::Nat(self.user_task_completion),
        ]
    }

    fn to_fields(&self) -> (r: Vec<FieldVal>) {
        let r = vec![
            FieldVal::Nat(self.tutor),
            FieldVal::Nat(self.tutor_session),
            FieldVal::Nat(self.learning_path),
            FieldVal::Nat(self.connection),
            FieldVal::Nat(self.connection_request),
            FieldVal::Nat(self.study_group),
            FieldVal::Nat(self.group_membership),
            FieldVal::Nat(self.subscription_plan),
            FieldVal::Nat(self.user_subscription),
            FieldVal::Nat(self.payment_transaction),
            FieldVal::Nat(self.achievement),
            FieldVal::Nat(self.user_achievement),
            FieldVal::Nat(self.task),
            FieldVal::Nat(self.user_task_completion),
        ];
        assert(fields_view(r@) =~= self.fields());
        r
    }

    fn from_fields(fs: &Vec<FieldVal>) -> (r: Option<Self>) {
        if fs.len() != 14 {
            proof {
                assert forall|x: Self| #[trigger] x.fields() != fields_view(fs@) by {
                    assert(x.fields().len() == 14);
                }
            }
            return None;
        }
        let v_tutor = match nat_at(fs, 0) {
            Some(v) => v,
            None => {
                return None;
            },
        };
        let v_tutor_session = match nat_at(fs, 1) {
            Some(v) => v,
            None => {
                return None;
            },
        };
        let v_learning_path = match nat_at(fs, 2) {
            Some(v) => v,
            None => {
                return None;
            },
        };
        let v_connection = match nat_at(fs, 3) {
            Some(v) => v,
            None => {
                return None;
            },
        };
        let v_connection_request = match nat_at(fs, 4) {
            Some(v) => v,
            None => {
                return None;
            },
        };
        let v_study_group = match nat_at(fs, 5) {
            Some(v) => v,
            None => {
                return None;
            },
        };
        let v_group_membership = match nat_at(fs, 6) {
            Some(v) => v,
            None => {
                return None;
            },
        };
        let v_subscription_plan = match nat_at(fs, 7) {
            Some(v) => v,
            None => {
                return None;
            },
        };
        let v_user_subscription = match nat_at(fs, 8) {
            Some(v) => v,
            None => {
                return None;
            },
        };
        let v_payment_transaction = match nat_at(fs, 9) {
            Some(v) => v,
            None => {
                return None;
            },
        };
        let v_achievement = match nat_at(fs, 10) {
            Some(v) => v,
            None => {
                return None;
            },
        };
        let v_user_achievement = match nat_at(fs, 11) {
            Some(v) => v,
            None => {
                return None;
            },
        };
        let v_task = match nat_at(fs, 12) {
            Some(v) => v,
            None => {
                return None;
            },
        };
        let v_user_task_completion = match nat_at(fs, 13) {
            Some(v) => v,
            None => {
                return None;
            },
        };
        let r = IdCounters {
            tutor: v_tutor,
            tutor_session: v_tutor_session,
            learning_path: v_learning_path,
            connection: v_connection,
            connection_request: v_connection_request,
            study_group: v_study_group,
            group_membership: v_group_membership,
            subscription_plan: v_subscription_plan,
            user_subscription: v_user_subscription,
            payment_transaction: v_payment_transaction,
            achievement: v_achievement,
            user_achievement: v_user_achievement,
            task: v_task,
            user_task_completion: v_user_task_completion,
        };
        assert(r.fields() =~= fields_view(fs@));
        Some(r)
    }
}
impl IdCounters {
    pub fn zero() -> (r: IdCounters)
        ensures
            forall|k: EntityKind| #[trigger] r.count(k) == 0,
    {
        IdCounters {
            tutor: 0,
            tutor_session: 0,
            learning_path: 0,
            connection: 0,
            connection_request: 0,
            study_group: 0,
            group_membership: 0,
            subscription_plan: 0,
            user_subscription: 0,
            payment_transaction: 0,
            achievement: 0,
            user_achievement: 0,
            task: 0,
            user_task_completion: 0,
        }
    }

    pub open spec fn count(&self, kind: EntityKind) -> u64 {
        match kind {
            EntityKind::Tutor => self.tutor,
            EntityKind::TutorSession => self.tutor_session,
            EntityKind::LearningPath => self.learning_path,
            EntityKind::Connection => self.connection,
            EntityKind::ConnectionRequest => self.connection_request,
            EntityKind::StudyGroup => self.study_group,
            EntityKind::GroupMembership => self.group_membership,
            EntityKind::SubscriptionPlan => self.subscription_plan,
            EntityKind::UserSubscription => self.user_subscription,
            EntityKind::PaymentTransaction => self.payment_transaction,
            EntityKind::Achievement => self.achievement,
            EntityKind::UserAchievement => self.user_achievement,
            EntityKind::Task => self.task,
            EntityKind::UserTaskCompletion => self.user_task_completion,
        }
    }

    pub fn get(&self, kind: EntityKind) -> (r: u64)
        ensures
            r == self.count(kind),
    {
        match kind {
            EntityKind::Tutor => self.tutor,
            EntityKind::TutorSession => self.tutor_session,
            EntityKind::LearningPath => self.learning_path,
            EntityKind::Connection => self.connection,
            EntityKind::ConnectionRequest => self.connection_request,
            EntityKind::StudyGroup => self.study_group,
            EntityKind::GroupMembership => self.group_membership,
            EntityKind::SubscriptionPlan => self.subscription_plan,
            EntityKind::UserSubscription => self.user_subscription,
            EntityKind::PaymentTransaction => self.payment_transaction,
            EntityKind::Achievement => self.achievement,
            EntityKind::UserAchievement => self.user_achievement,
            EntityKind::Task => self.task,
            EntityKind::UserTaskCompletion => self.user_task_completion,
        }
    }

    /// Advances the counter of `kind` by one.
    pub fn bump(&mut self, kind: EntityKind)
        requires
            old(self).count(kind) < u64::MAX,
        ensures
            final(self).count(kind) == old(self).count(kind) + 1,
            forall|k: EntityKind| k != kind ==> #[trigger] final(self).count(k) == old(self).count(k),
    {
        match kind {
            EntityKind::Tutor => {
                self.tutor = self.tutor + 1;
            },
            EntityKind::TutorSession => {
                self.tutor_session = self.tutor_session + 1;
            },
            EntityKind::LearningPath => {
                self.learning_path = self.learning_path + 1;
            },
            EntityKind::Connection => {
                self.connection = self.connection + 1;
            },
            EntityKind::ConnectionRequest => {
                self.connection_request = self.connection_request + 1;
            },
            EntityKind::StudyGroup => {
                self.study_group = self.study_group + 1;
            },
            EntityKind::GroupMembership => {
                self.group_membership = self.group_membership + 1;
            },
            EntityKind::SubscriptionPlan => {
                self.subscription_plan = self.subscription_plan + 1;
            },
            EntityKind::UserSubscription => {
                self.user_subscription = self.user_subscription + 1;
            },
            EntityKind::PaymentTransaction => {
                self.payment_transaction = self.payment_transaction + 1;
            },
            EntityKind::Achievement => {
                self.achievement = self.achievement + 1;
            },
            EntityKind::UserAchievement => {
                self.user_achievement = self.user_achievement + 1;
            },
            EntityKind::Task => {
                self.task = self.task + 1;
            },
            EntityKind::UserTaskCompletion => {
                self.user_task_completion = self.user_task_completion + 1;
            },
        }
    }
}


/// The counters recorded by a cell that holds `b`.
pub open spec fn counters_in(b: Seq<u8>) -> IdCounters {
    choose|c: IdCounters| encodes(b, #[trigger] c.fields())
}

/// A cell holding `b` holds a well-formed counter record.
pub open spec fn intact(b: Seq<u8>) -> bool {
    is_record::<IdCounters>(b)
}

pub open spec fn counter_in(b: Seq<u8>, kind: EntityKind) -> u64 {
    counters_in(b).count(kind)
}

/// A minting step: the cell went from `a` to `b` and handed out `id` for
/// `kind`, the successor of the last one, leaving the other kinds alone.
pub open spec fn minted(a: Seq<u8>, kind: EntityKind, b: Seq<u8>, id: u64) -> bool {
    &&& intact(a)
    &&& intact(b)
    &&& id == counter_in(a, kind) + 1
    &&& counter_in(b, kind) == id
    &&& forall|k: EntityKind| k != kind ==> #[trigger] counter_in(b, k) == counter_in(a, k)
}

proof fn lemma_counters_in(b: Seq<u8>, c: IdCounters)
    requires
        encodes(b, c.fields()),
    ensures
        intact(b),
        counters_in(b) == c,
{
    let x = counters_in(b);
    lemma_encoding_injective(b, x.fields(), c.fields());
    assert(x.fields() == c.fields());
    assert forall|i: int| 0 <= i < 14 implies x.fields()[i] == c.fields()[i] by {}
}

/// A run of minting calls: call `n` asked for an identifier of `kinds[n]`
/// and either minted `outcomes[n]` or failed and left the cell as it was.
pub open spec fn minting_run(cells: Seq<Seq<u8>>, kinds: Seq<EntityKind>, outcomes: Seq<Option<u64>>) -> bool {
    &&& cells.len() == outcomes.len() + 1
    &&& kinds.len() == outcomes.len()
    &&& forall|n: int|
        0 <= n < outcomes.len() ==> match #[trigger] outcomes[n] {
            Some(id) => minted(cells[n], kinds[n], cells[n + 1], id),
            None => cells[n + 1] == cells[n],
        }
}

proof fn lemma_counter_never_falls(
    cells: Seq<Seq<u8>>,
    kinds: Seq<EntityKind>,
    outcomes: Seq<Option<u64>>,
    kind: EntityKind,
    from: int,
    to: int,
)
    requires
        minting_run(cells, kinds, outcomes),
        0 <= from <= to < cells.len(),
        intact(cells[from]),
    ensures
        intact(cells[to]),
        counter_in(cells[to], kind) >= counter_in(cells[from], kind),
    decreases to - from,
{
    if from < to {
        lemma_counter_never_falls(cells, kinds, outcomes, kind, from, to - 1);
        let n = to - 1;
        match outcomes[n] {
            Some(id) => {
                if kinds[n] != kind {
                    assert(counter_in(cells[to], kind) == counter_in(cells[n], kind));
                }
            },
            None => {},
        }
    }
}

/// Identifiers minted for one kind strictly increase, and so never repeat,
/// over any run of minting calls on one allocator.
pub proof fn lemma_minted_ids_increase(
    cells: Seq<Seq<u8>>,
    kinds: Seq<EntityKind>,
    outcomes: Seq<Option<u64>>,
    i: int,
    j: int,
)
    requires
        minting_run(cells, kinds, outcomes),
        0 <= i < j < outcomes.len(),
        kinds[i] == kinds[j],
        outcomes[i] is Some,
        outcomes[j] is Some,
    ensures
        outcomes[i]->0 < outcomes[j]->0,
{
    let k = kinds[i];
    assert(minted(cells[i], k, cells[i + 1], outcomes[i]->0));
    assert(minted(cells[j], k, cells[j + 1], outcomes[j]->0));
    lemma_counter_never_falls(cells, kinds, outcomes, k, i + 1, j);
}

/// The counter cell, from which fresh identifiers are minted.
pub struct IdAllocator {
    cell: RecordCell,
}

impl View for IdAllocator {
    type V = Seq<u8>;

    closed spec fn view(&self) -> Seq<u8> {
        self.cell@
    }
}

impl IdAllocator {
    /// The allocator persisted in region `tag`, or a fresh one whose counters
    /// are all zero.
    pub(crate) fn open(regions: &RegionManager, tag: u8) -> (r: Option<IdAllocator>)
        requires
            tag < 255,
    {
        let zero = IdCounters::zero();
        match RecordCell::open(regions.region(tag), to_bytes(&zero)) {
            Some(cell) => Some(IdAllocator { cell }),
            None => None,
        }
    }

    /// The last identifier minted for `kind`, read from the cell.
    pub fn current(&self, kind: EntityKind) -> (r: Result<u64, Fatal>)
        ensures
            intact(self@) ==> r == Ok::<u64, Fatal>(counter_in(self@, kind)),
            !intact(self@) ==> r == Err::<u64, Fatal>(Fatal::CorruptRecord),
    {
        let bytes = self.cell.get();
        match from_bytes::<IdCounters>(&bytes) {
            Some(c) => {
                proof {
                    lemma_counters_in(bytes@, c);
                }
                Ok(c.get(kind))
            },
            None => Err(Fatal::CorruptRecord),
        }
    }

    /// Mints the next identifier of `kind`: reads the counter record,
    /// advances the counter of `kind`, writes the whole record back, and
    /// returns the new value. On failure the cell is left as it was.
    pub fn next(&mut self, kind: EntityKind) -> (r: Result<u64, Fatal>)
        ensures
            !intact(old(self)@) ==> r == Err::<u64, Fatal>(Fatal::CorruptRecord),
            intact(old(self)@) && counter_in(old(self)@, kind) == u64::MAX ==> r == Err::<
                u64,
                Fatal,
            >(Fatal::CounterExhausted),
            intact(old(self)@) && counter_in(old(self)@, kind) < u64::MAX ==> (r is Ok || r
                == Err::<u64, Fatal>(Fatal::WriteFailed)),
            r matches Ok(id) ==> minted(old(self)@, kind, final(self)@, id),
            r is Err ==> final(self)@ == old(self)@,
    {
        let bytes = self.cell.get();
        let mut c = match from_bytes::<IdCounters>(&bytes) {
            Some(c) => c,
            None => {
                return Err(Fatal::CorruptRecord);
            },
        };
        proof {
            lemma_counters_in(bytes@, c);
        }
        if c.get(kind) == u64::MAX {
            return Err(Fatal::CounterExhausted);
        }
        c.bump(kind);
        let nb = to_bytes(&c);
        proof {
            lemma_counters_in(nb@, c);
        }
        if !self.cell.set(nb) {
            return Err(Fatal::WriteFailed);
        }
        Ok(c.get(kind))
    }
}

/// Mints the next identifier for the entity kind named `entity` (see
/// [`EntityKind::name`]). Naming no kind is a programming error, so the
/// name must be one of them.
pub fn next_id(ids: &mut IdAllocator, entity: &str) -> (r: Result<u64, Fatal>)
    requires
        exists|k: EntityKind| #[trigger] k.name() == entity@,
    ensures
        forall|k: EntityKind|
            #[trigger] k.name() == entity@ ==> {
                &&& !intact(old(ids)@) ==> r == Err::<u64, Fatal>(Fatal::CorruptRecord)
                &&& intact(old(ids)@) && counter_in(old(ids)@, k) == u64::MAX ==> r == Err::<
                    u64,
                    Fatal,
                >(Fatal::CounterExhausted)
                &&& intact(old(ids)@) && counter_in(old(ids)@, k) < u64::MAX ==> (r is Ok || r
                    == Err::<u64, Fatal>(Fatal::WriteFailed))
                &&& r matches Ok(id) ==> minted(old(ids)@, k, final(ids)@, id)
            },
        r is Err ==> final(ids)@ == old(ids)@,
{
    let kind = match EntityKind::from_name(entity) {
        Some(k) => k,
        None => {
            return Err(Fatal::CorruptRecord);
        },
    };
    let r = ids.next(kind);
    proof {
        assert forall|k: EntityKind| #[trigger] k.name() == entity@ implies k == kind by {
            lemma_kind_names_distinct(k, kind);
        }
    }
    r
}

proof fn lemma_kind_names_distinct(a: EntityKind, b: EntityKind)
    requires
        a.name() == b.name(),
    ensures
        a == b,
{
    reveal_strlit("tutor");
    reveal_strlit("tutor_session");
    reveal_strlit("learning_path");
    reveal_strlit("connection");
    reveal_strlit("connection_request");
    reveal_strlit("study_group");
    reveal_strlit("group_membership");
    reveal_strlit("subscription_plan");
    reveal_strlit("user_subscription");
    reveal_strlit("payment_transaction");
    reveal_strlit("achievement");
    reveal_strlit("user_achievement");
    reveal_strlit("task");
    reveal_strlit("user_task_completion");
    assert(EntityKind::Tutor.name().len() == 5 && EntityKind::Tutor.name()[0] == 't');
    assert(EntityKind::TutorSession.name().len() == 13 && EntityKind::TutorSession.name()[0] == 't');
    assert(EntityKind::LearningPath.name().len() == 13 && EntityKind::LearningPath.name()[0] == 'l');
    assert(EntityKind::Connection.name().len() == 10 && EntityKind::Connection.name()[0] == 'c');
    assert(EntityKind::ConnectionRequest.name().len() == 18 && EntityKind::ConnectionRequest.name()[0] == 'c');
    assert(EntityKind::StudyGroup.name().len() == 11 && EntityKind::StudyGroup.name()[0] == 's');
    assert(EntityKind::GroupMembership.name().len() == 16 && EntityKind::GroupMembership.name()[0] == 'g');
    assert(EntityKind::SubscriptionPlan.name().len() == 17 && EntityKind::SubscriptionPlan.name()[0] == 's');
    assert(EntityKind::UserSubscription.name().len() == 17 && EntityKind::UserSubscription.name()[0] == 'u');
    assert(EntityKind::PaymentTransaction.name().len() == 19 && EntityKind::PaymentTransaction.name()[0] == 'p');
    assert(EntityKind::Achievement.name().len() == 11 && EntityKind::Achievement.name()[0] == 'a');
    assert(EntityKind::UserAchievement.name().len() == 16 && EntityKind::UserAchievement.name()[0] == 'u');
    assert(EntityKind::Task.name().len() == 4 && EntityKind::Task.name()[0] == 't');
    assert(EntityKind::UserTaskCompletion.name().len() == 20 && EntityKind::UserTaskCompletion.name()[0] == 'u');
    if a != b {
        assert(a.name().len() != b.name().len() || a.name()[0] != b.name()[0]);
    }
}

} // verus!
