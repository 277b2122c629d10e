use chatcore::errors::ApiError;
use chatcore::models::RegisterData;
use chatcore::server::AppState;
use chatcore::store::InvitationStatus;

const NOW: u64 = 1_700_000_000;

fn register(state: &mut AppState, name: &str) -> u128 {
    let payload = RegisterData {
        username: name.to_string(),
        email: format!("{}@x", name),
        password: "Aa1!aaaa".to_string(),
    };
    state.register_user(&payload).expect("registration should succeed");
    let row = state
        .store
        .users
        .iter()
        .find(|u| u.username == name)
        .expect("registered user should be stored");
    row.id
}

#[test]
fn create_chat_with_default_name() {
    let mut state = AppState::new();
    let alice = register(&mut state, "alice");
    let chat = state
        .create_chat(alice, None, &Vec::new(), NOW)
        .expect("chat creation should succeed");
    assert_eq!(chat.name, "Default Chat");
    assert_eq!(state.store.chats.len(), 1);
    assert!(state.store.is_member(chat.id, alice));
    assert!(state.store.chat_members[0].is_creator);
}

#[test]
fn create_chat_rejects_oversized_name() {
    let mut state = AppState::new();
    let alice = register(&mut state, "alice");
    let long = "x".repeat(51);
    let r = state.create_chat(alice, Some(long), &Vec::new(), NOW);
    assert!(matches!(r, Err(ApiError::Validation)));
    assert_eq!(state.store.chats.len(), 0);
}

#[test]
fn create_chat_invites_listed_users() {
    let mut state = AppState::new();
    let alice = register(&mut state, "alice");
    register(&mut state, "bob");
    let invitees = vec!["bob".to_string(), "nobody".to_string()];
    let chat = state
        .create_chat(alice, Some("r2".to_string()), &invitees, NOW)
        .expect("chat creation should succeed");
    assert_eq!(chat.name, "r2");
    assert_eq!(state.store.invites.len(), 1);
    let invite = state.store.invites[0];
    assert_eq!(invite.chat_id, chat.id);
    assert_eq!(invite.inviter_id, alice);
    assert_eq!(invite.status, InvitationStatus::Pending);
}

#[test]
fn accepting_invitation_is_atomic() {
    let mut state = AppState::new();
    let alice = register(&mut state, "alice");
    let bob = register(&mut state, "bob");
    let chat = state
        .create_chat(alice, Some("r2".to_string()), &vec!["bob".to_string()], NOW)
        .unwrap();
    let invite_id = state.store.invites[0].id;

    let settled = state
        .respond_to_invitation(invite_id, bob, true, NOW + 1)
        .expect("acceptance should succeed");
    assert_eq!(settled.status, InvitationStatus::Accepted);
    assert_eq!(settled.updated_at, NOW + 1);
    assert_eq!(state.store.invites[0].status, InvitationStatus::Accepted);
    assert!(state.store.is_member(chat.id, bob));
}

#[test]
fn invitation_settles_exactly_once() {
    let mut state = AppState::new();
    let alice = register(&mut state, "alice");
    let bob = register(&mut state, "bob");
    state
        .create_chat(alice, None, &vec!["bob".to_string()], NOW)
        .unwrap();
    let invite_id = state.store.invites[0].id;
    state.respond_to_invitation(invite_id, bob, false, NOW).unwrap();
    assert_eq!(state.store.invites[0].status, InvitationStatus::Rejected);
    assert!(matches!(
        state.respond_to_invitation(invite_id, bob, true, NOW),
        Err(ApiError::Conflict)
    ));
}

#[test]
fn responding_to_missing_invitation_is_not_found() {
    let mut state = AppState::new();
    let bob = register(&mut state, "bob");
    assert!(matches!(
        state.respond_to_invitation(99, bob, true, NOW),
        Err(ApiError::NotFound)
    ));
}

#[test]
fn only_the_invitee_can_respond() {
    let mut state = AppState::new();
    let alice = register(&mut state, "alice");
    let _bob = register(&mut state, "bob");
    state
        .create_chat(alice, None, &vec!["bob".to_string()], NOW)
        .unwrap();
    let invite_id = state.store.invites[0].id;
    assert!(matches!(
        state.respond_to_invitation(invite_id, alice, true, NOW),
        Err(ApiError::NotFound)
    ));
}

#[test]
fn inviting_unknown_user_is_not_found() {
    let mut state = AppState::new();
    let alice = register(&mut state, "alice");
    let chat = state.create_chat(alice, None, &Vec::new(), NOW).unwrap();
    assert_eq!(
        state.send_invitation(chat.id, alice, &"ghost".to_string(), NOW),
        Err(ApiError::NotFound)
    );
}

#[test]
fn inviting_a_member_conflicts() {
    let mut state = AppState::new();
    let alice = register(&mut state, "alice");
    let chat = state.create_chat(alice, None, &Vec::new(), NOW).unwrap();
    assert_eq!(
        state.send_invitation(chat.id, alice, &"alice".to_string(), NOW),
        Err(ApiError::Conflict)
    );
}

#[test]
fn non_member_cannot_post() {
    let mut state = AppState::new();
    let alice = register(&mut state, "alice");
    let carol = register(&mut state, "carol");
    let chat = state.create_chat(alice, None, &Vec::new(), NOW).unwrap();
    let r = state.send_message(chat.id, carol, "hi".to_string(), NOW);
    assert!(matches!(r, Err(ApiError::Forbidden)));
    assert_eq!(state.store.messages.len(), 0);
}

#[test]
fn posted_message_is_stored_with_its_fields() {
    let mut state = AppState::new();
    let alice = register(&mut state, "alice");
    let chat = state.create_chat(alice, None, &Vec::new(), NOW).unwrap();
    let msg = state
        .send_message(chat.id, alice, "hello".to_string(), NOW)
        .expect("member should be able to post");
    assert_eq!(msg.chat_id, chat.id);
    assert_eq!(msg.sender_id, alice);
    assert_eq!(msg.message_text, "hello");
    assert_eq!(msg.timestamp, NOW);

    let listed = state.store.get_chat_messages(chat.id);
    assert_eq!(listed.len(), 1);
    assert_eq!(listed[0].id, msg.id);
    assert_eq!(listed[0].message_text, "hello");

    let fetched = state.store.get_message_by_id(msg.id).expect("stored");
    assert_eq!(fetched.message_text, "hello");
}

#[test]
fn messages_come_back_in_timestamp_order() {
    let mut state = AppState::new();
    let alice = register(&mut state, "alice");
    let chat = state.create_chat(alice, None, &Vec::new(), NOW).unwrap();
    state.send_message(chat.id, alice, "later".to_string(), NOW + 5).unwrap();
    state.send_message(chat.id, alice, "earlier".to_string(), NOW + 3).unwrap();
    state.send_message(chat.id, alice, "middle".to_string(), NOW + 4).unwrap();
    let listed = state.store.get_chat_messages(chat.id);
    let texts: Vec<&str> = listed.iter().map(|m| m.message_text.as_str()).collect();
    assert_eq!(texts, vec!["earlier", "middle", "later"]);
}

#[test]
fn message_listing_is_scoped_to_the_chat() {
    let mut state = AppState::new();
    let alice = register(&mut state, "alice");
    let one = state.create_chat(alice, Some("one".to_string()), &Vec::new(), NOW).unwrap();
    let two = state.create_chat(alice, Some("two".to_string()), &Vec::new(), NOW).unwrap();
    state.send_message(one.id, alice, "in one".to_string(), NOW).unwrap();
    state.send_message(two.id, alice, "in two".to_string(), NOW).unwrap();
    let listed = state.store.get_chat_messages(one.id);
    assert_eq!(listed.len(), 1);
    assert_eq!(listed[0].message_text, "in one");
}
