use cogni_store::models::connections::ConnectionRequest;
use cogni_store::models::study_group::GroupMembership;
use cogni_store::models::user::User;
use cogni_store::{Identity, Store, StoreError};

fn id(b: &[u8]) -> Identity {
    Identity::new(b.to_vec())
}

fn fresh() -> Store {
    Store::open().expect("store opens")
}

fn stored_request(store: &Store, request_id: u64) -> ConnectionRequest {
    store.get_connection_request(request_id).unwrap().expect("request stored")
}

#[test]
fn request_accept_scenario_creates_one_connection() {
    let mut store = fresh();
    let u1 = id(&[1, 1]);
    let u2 = id(&[2, 2]);
    store.create_user(&u1, "ada".to_string(), "ada@example.com".to_string(), 10);
    let request = store
        .send_connection_request(&u1, id(&[2, 2]), Some("hi".to_string()), 20)
        .unwrap();
    assert_eq!(request.status, "pending");
    assert_eq!(request.sender_id.bytes, vec![1, 1]);
    assert_eq!(request.receiver_id.bytes, vec![2, 2]);
    assert_eq!(request.responded_at, None);

    let connection = store.accept_connection_request(&u2, request.id, 30).unwrap();
    assert_eq!(connection.user1_id.bytes, vec![1, 1]);
    assert_eq!(connection.user2_id.bytes, vec![2, 2]);
    assert_eq!(connection.status, "active");
    assert_eq!(connection.created_at, 30);

    let of_u1 = store.get_connections(&u1).unwrap();
    let of_u2 = store.get_connections(&u2).unwrap();
    assert_eq!(of_u1.len(), 1);
    assert_eq!(of_u2.len(), 1);
    assert_eq!(of_u1[0].id, connection.id);

    let after = stored_request(&store, request.id);
    assert_eq!(after.status, "accepted");
    assert_eq!(after.responded_at, Some(30));
    assert_eq!(after.message, Some("hi".to_string()));
    assert_eq!(after.updated_at, 20);
}

#[test]
fn accepting_twice_is_invalid_state() {
    let mut store = fresh();
    let a = id(&[1]);
    let b = id(&[2]);
    let request = store.send_connection_request(&a, id(&[2]), None, 1).unwrap();
    assert!(store.accept_connection_request(&b, request.id, 2).is_ok());
    assert_eq!(stored_request(&store, request.id).status, "accepted");
    let second = store.accept_connection_request(&b, request.id, 3);
    assert!(matches!(second, Err(StoreError::InvalidState)));
    assert_eq!(store.get_connections(&a).unwrap().len(), 1);
    assert_eq!(stored_request(&store, request.id).responded_at, Some(2));
}

#[test]
fn request_to_oneself_is_invalid_argument() {
    let mut store = fresh();
    let a = id(&[7, 7, 7]);
    let r = store.send_connection_request(&a, id(&[7, 7, 7]), Some("me".to_string()), 1);
    assert!(matches!(r, Err(StoreError::InvalidArgument)));
    assert!(store.get_connection_request(1).unwrap().is_none());
    let first = store.send_connection_request(&a, id(&[8]), None, 2).unwrap();
    assert_eq!(first.id, 1);
}

#[test]
fn accept_refusals() {
    let mut store = fresh();
    let a = id(&[1]);
    let b = id(&[2]);
    let c = id(&[3]);
    assert!(matches!(
        store.accept_connection_request(&b, 99, 1),
        Err(StoreError::NotFound)
    ));
    let request = store.send_connection_request(&a, id(&[2]), None, 1).unwrap();
    assert!(matches!(
        store.accept_connection_request(&c, request.id, 2),
        Err(StoreError::Unauthorized)
    ));
    assert!(matches!(
        store.accept_connection_request(&a, request.id, 2),
        Err(StoreError::Unauthorized)
    ));
    assert_eq!(stored_request(&store, request.id).status, "pending");
    assert_eq!(store.get_connections(&a).unwrap().len(), 0);
}

#[test]
fn group_creator_is_its_only_admin() {
    let mut store = fresh();
    let creator = id(&[9, 9]);
    let group = store
        .create_study_group(&creator, "rust".to_string(), None, true, 12, "advanced".to_string(), 40)
        .unwrap();
    assert_eq!(group.id, 1);
    assert_eq!(group.public_id, "1");
    assert_eq!(group.creator_id.bytes, vec![9, 9]);
    assert_eq!(group.max_members, 12);
    assert!(group.is_private);
    let of_group: Vec<GroupMembership> = store.get_group_memberships(group.id).unwrap();
    assert_eq!(of_group.len(), 1);
    assert_eq!(of_group[0].role, "admin");
    assert_eq!(of_group[0].status, "active");
    assert_eq!(of_group[0].user_id.bytes, vec![9, 9]);
    assert_eq!(of_group[0].last_active_at, Some(40));
    let read = store.get_study_group(group.id).unwrap().unwrap();
    assert_eq!(read.name, "rust");
    assert_eq!(read.learning_level, "advanced");
}

#[test]
fn joining_a_missing_group_is_not_found() {
    let mut store = fresh();
    let who = id(&[4]);
    let r = store.join_study_group(&who, 1, 5);
    assert!(matches!(r, Err(StoreError::NotFound)));
    assert!(store.get_group_memberships(1).unwrap().is_empty());
    let g = store
        .create_study_group(&id(&[5]), "g".to_string(), Some("d".to_string()), false, 3, "beginner".to_string(), 6)
        .unwrap();
    assert!(matches!(store.join_study_group(&who, g.id + 1, 7), Err(StoreError::NotFound)));
    assert_eq!(store.get_group_memberships(g.id).unwrap().len(), 1);
    assert!(store.get_group_memberships(g.id + 1).unwrap().is_empty());
    let m = store.join_study_group(&who, g.id, 8).unwrap();
    assert_eq!(m.role, "member");
    assert_eq!(m.group_id, g.id);
    assert_eq!(m.id, 2);
    let members = store.get_group_memberships(g.id).unwrap();
    assert_eq!(members.len(), 2);
    assert_eq!(members[0].role, "admin");
    assert_eq!(members[1].role, "member");
}

#[test]
fn admin_only_operations_refuse_others() {
    let mut store = fresh();
    let plain = id(&[1]);
    let stranger = id(&[2]);
    store.create_user(&plain, "bob".to_string(), "bob@example.com".to_string(), 1);
    assert!(matches!(store.get_all_users_admin(&plain), Err(StoreError::Unauthorized)));
    assert!(matches!(store.get_all_users_admin(&stranger), Err(StoreError::Unauthorized)));
    let r = store.update_user_status_admin(&plain, &plain, "suspended".to_string());
    assert!(matches!(r, Err(StoreError::Unauthorized)));
    assert!(matches!(store.create_subscription_plan_admin(&plain), Err(StoreError::Unauthorized)));
    let me = store.get_self(&plain).unwrap().unwrap();
    assert_eq!(me.status, "active");
    assert_eq!(store.is_admin(&plain), Ok(false));
}

#[test]
fn new_user_defaults() {
    let mut store = fresh();
    let who = id(&[4]);
    let u: User = store.create_user(&who, "cy".to_string(), "cy@example.com".to_string(), 77);
    assert_eq!(u.public_id, "2vxsx-fae");
    assert_eq!(u.role, "user");
    assert_eq!(u.status, "active");
    assert_eq!(u.subscription, "free");
    assert!(u.is_active);
    assert!(!u.is_verified);
    assert_eq!(u.created_at, 77);
    assert_eq!(u.last_active, 77);
    assert_eq!(u.settings.learning_style, "visual");
    assert_eq!(u.settings.preferred_language, "en");
    assert_eq!(u.settings.daily_goal_hours, 1);
    assert_eq!(u.settings.activity_sharing, "connections");
    let back = store.get_self(&who).unwrap().unwrap();
    assert_eq!(back.email, "cy@example.com");
    assert_eq!(back.settings.ai_interaction_style, "casual");
    assert!(store.get_self(&id(&[5])).unwrap().is_none());
}

#[test]
fn management_principal_text() {
    let mut store = fresh();
    let u = store.create_user(&id(&[]), "m".to_string(), "m@example.com".to_string(), 1);
    assert_eq!(u.public_id, "aaaaa-aa");
}

#[test]
fn tutors_of_their_owner_in_order() {
    let mut store = fresh();
    let a = id(&[1]);
    let b = id(&[2]);
    let t1 = store
        .create_tutor(&a, "one".to_string(), "d".to_string(), "s".to_string(), "p".to_string(), vec!["math".to_string()], 1)
        .unwrap();
    let t2 = store
        .create_tutor(&b, "two".to_string(), "d".to_string(), "s".to_string(), "p".to_string(), vec![], 2)
        .unwrap();
    let t3 = store
        .create_tutor(&a, "three".to_string(), "d".to_string(), "s".to_string(), "p".to_string(), vec![], 3)
        .unwrap();
    assert_eq!((t1.id, t2.id, t3.id), (1, 2, 3));
    assert_eq!(t3.public_id, "3");
    let mine = store.get_tutors(&a).unwrap();
    assert_eq!(mine.len(), 2);
    assert_eq!(mine[0].name, "one");
    assert_eq!(mine[1].name, "three");
    assert_eq!(mine[0].expertise, vec!["math".to_string()]);
    assert_eq!(store.get_tutors(&id(&[3])).unwrap().len(), 0);
    assert_eq!(store.get_tutor(2).unwrap().unwrap().name, "two");
    assert!(store.get_tutor(4).unwrap().is_none());
}

#[test]
fn completing_a_task_credits_its_rewards() {
    let mut store = fresh();
    let maker = id(&[1]);
    let doer = id(&[2]);
    assert!(matches!(store.complete_task(&doer, 1, 1), Err(StoreError::NotFound)));
    let task = store
        .create_task(&maker, "read".to_string(), "a chapter".to_string(), "learning".to_string(), "easy".to_string(), 5, 50, 2)
        .unwrap();
    assert_eq!(task.max_completions, 1);
    assert!(task.is_active);
    let c1 = store.complete_task(&doer, task.id, 3).unwrap();
    let c2 = store.complete_task(&doer, task.id, 4).unwrap();
    assert_eq!((c1.tokens_earned, c1.points_earned), (5, 50));
    assert_eq!(c1.completion_count, 1);
    assert_eq!(c1.user_id.bytes, vec![2]);
    assert_eq!((c1.id, c2.id), (1, 2));
    assert_eq!(c2.completed_at, 4);
    let tasks = store.get_tasks().unwrap();
    assert_eq!(tasks.len(), 1);
    assert_eq!(tasks[0].title, "read");
}

#[test]
fn minted_ids_increase_per_kind() {
    let mut store = fresh();
    assert_eq!(store.next_id("tutor"), Ok(1));
    assert_eq!(store.next_id("tutor"), Ok(2));
    assert_eq!(store.next_id("task"), Ok(1));
    assert_eq!(store.next_id("tutor"), Ok(3));
    assert_eq!(store.next_id("user_task_completion"), Ok(1));
    let t = store
        .create_tutor(&id(&[1]), "n".to_string(), "d".to_string(), "s".to_string(), "p".to_string(), vec![], 1)
        .unwrap();
    assert_eq!(t.id, 4);
}
