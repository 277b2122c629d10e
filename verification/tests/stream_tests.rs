use chatcore::errors::AuthError;
use chatcore::models::LoginData;
use chatcore::models::RegisterData;
use chatcore::server::outbound_action;
use chatcore::server::AppState;
use chatcore::server::OutboundAction;
use chatcore::wire::ChatMessage;
use chatcore::wire::StatusMessage;
use chatcore::wire::UserStatus;
use chatcore::wire::WebSocketMessage;
use tokio::sync::broadcast::error::TryRecvError;

const SECRET: &[u8] = b"SECRET-REDACTED";
const NOW: u64 = 1_700_000_000;

fn register_and_login(state: &mut AppState, name: &str) -> (u128, String) {
    let payload = RegisterData {
        username: name.to_string(),
        email: format!("{}@x", name),
        password: "Aa1!aaaa".to_string(),
    };
    state.register_user(&payload).unwrap();
    let token = state
        .login_user(
            &LoginData { username: name.to_string(), password: "Aa1!aaaa".to_string() },
            SECRET,
            NOW,
        )
        .unwrap();
    let id = state.store.users.iter().find(|u| u.username == name).unwrap().id;
    (id, token)
}

#[test]
fn echo_round_trip_on_one_stream() {
    let mut state = AppState::new();
    let (alice, token) = register_and_login(&mut state, "alice");
    let chat = state.create_chat(alice, Some("r1".to_string()), &Vec::new(), NOW).unwrap();

    let (user_id, mut rx) = state
        .open_stream(&token, SECRET, chat.id, NOW)
        .expect("member should be allowed to stream");
    assert_eq!(user_id, alice);

    match rx.try_recv().expect("online status expected") {
        WebSocketMessage::Status(s) => {
            assert_eq!(s.user_id, alice);
            assert_eq!(s.status, UserStatus::Online);
        }
        _ => panic!("expected a status frame first"),
    }

    let msg = state.send_message(chat.id, alice, "hello".to_string(), NOW).unwrap();
    match rx.try_recv().expect("chat frame expected") {
        WebSocketMessage::Chat(cm) => {
            assert_eq!(cm.content, "hello");
            assert_eq!(cm.sender_id, alice);
            assert_eq!(cm.chat_id, chat.id);
            assert_eq!(cm.message_id, msg.id);
        }
        _ => panic!("expected a chat frame"),
    }

    // the delivered frame's message row is already durable
    let stored = state.store.get_message_by_id(msg.id).expect("durable row");
    assert_eq!(stored.message_text, "hello");
}

#[test]
fn two_member_broadcast_after_acceptance() {
    let mut state = AppState::new();
    let (alice, alice_token) = register_and_login(&mut state, "alice");
    let (bob, bob_token) = register_and_login(&mut state, "bob");
    let chat = state
        .create_chat(alice, Some("r2".to_string()), &vec!["bob".to_string()], NOW)
        .unwrap();
    let invite_id = state.store.invites[0].id;
    state.respond_to_invitation(invite_id, bob, true, NOW).unwrap();

    let (_, mut alice_rx) = state.open_stream(&alice_token, SECRET, chat.id, NOW).unwrap();
    let (_, mut bob_rx) = state.open_stream(&bob_token, SECRET, chat.id, NOW).unwrap();

    state.send_message(chat.id, alice, "hi bob".to_string(), NOW).unwrap();

    let mut bob_saw_it = false;
    while let Ok(frame) = bob_rx.try_recv() {
        if let WebSocketMessage::Chat(cm) = frame {
            assert_eq!(cm.content, "hi bob");
            bob_saw_it = true;
        }
    }
    assert!(bob_saw_it, "bob's stream must observe the message");

    let mut alice_saw_echo = false;
    while let Ok(frame) = alice_rx.try_recv() {
        if let WebSocketMessage::Chat(cm) = frame {
            assert_eq!(cm.content, "hi bob");
            alice_saw_echo = true;
        }
    }
    assert!(alice_saw_echo, "alice observes her own echo");
}

#[test]
fn membership_gate_blocks_stream_and_leaves_no_trace() {
    let mut state = AppState::new();
    let (alice, _) = register_and_login(&mut state, "alice");
    let (_carol, carol_token) = register_and_login(&mut state, "carol");
    let chat = state.create_chat(alice, Some("r2".to_string()), &Vec::new(), NOW).unwrap();

    let r = state.open_stream(&carol_token, SECRET, chat.id, NOW);
    assert!(matches!(r, Err(AuthError::AccessDenied)));
    assert_eq!(state.connections.chats.len(), 0);
}

#[test]
fn bad_token_cannot_open_a_stream() {
    let mut state = AppState::new();
    let (alice, _) = register_and_login(&mut state, "alice");
    let chat = state.create_chat(alice, None, &Vec::new(), NOW).unwrap();
    let r = state.open_stream(&"garbage".to_string(), SECRET, chat.id, NOW);
    assert!(matches!(r, Err(AuthError::InvalidToken)));
    assert_eq!(state.connections.chats.len(), 0);
}

#[test]
fn closing_the_last_stream_cleans_the_room_up() {
    let mut state = AppState::new();
    let (alice, token) = register_and_login(&mut state, "alice");
    let chat = state.create_chat(alice, None, &Vec::new(), NOW).unwrap();
    let (_, mut rx) = state.open_stream(&token, SECRET, chat.id, NOW).unwrap();

    state.close_stream(chat.id, alice, NOW + 1);
    assert_eq!(state.connections.chats.len(), 0);

    // the lingering subscription observes closure after the buffered frames
    loop {
        match rx.try_recv() {
            Ok(_) => continue,
            Err(TryRecvError::Closed) => break,
            Err(e) => panic!("expected closure, got {:?}", e),
        }
    }

    // a broadcast on the dead room is a no-op, and closing again changes nothing
    state.send_message(chat.id, alice, "into the void".to_string(), NOW + 2).unwrap();
    state.close_stream(chat.id, alice, NOW + 3);
}

#[test]
fn invitation_is_pushed_to_an_online_invitee() {
    let mut state = AppState::new();
    let (alice, _) = register_and_login(&mut state, "alice");
    let (bob, _) = register_and_login(&mut state, "bob");

    // bob holds a live connection, so his direct channel is open
    let mut bob_direct = state.connections.register_connection(bob, "bob".to_string());

    let chat = state
        .create_chat(alice, Some("r3".to_string()), &vec!["bob".to_string()], NOW)
        .unwrap();

    match bob_direct.try_recv().expect("push should be delivered") {
        WebSocketMessage::Invitation(note) => {
            assert_eq!(note.chat_id, chat.id);
            assert_eq!(note.inviter_username, "alice");
            assert_eq!(note.invitation_id, state.store.invites[0].id);
        }
        _ => panic!("expected an invitation frame"),
    }
}

#[test]
fn outbound_step_forwards_chat_content_as_text() {
    let frame = WebSocketMessage::Chat(ChatMessage {
        message_id: 1,
        chat_id: 2,
        sender_id: 3,
        content: "hello".to_string(),
        timestamp: NOW,
    });
    match outbound_action(frame) {
        OutboundAction::SendText(text) => assert_eq!(text, "hello"),
        _ => panic!("chat frames go out as bare text"),
    }
}

#[test]
fn outbound_step_forwards_other_frames_whole() {
    let frame = WebSocketMessage::Status(StatusMessage {
        chat_id: 2,
        user_id: 3,
        status: UserStatus::Joined,
        timestamp: NOW,
    });
    match outbound_action(frame) {
        OutboundAction::SendEnvelope(WebSocketMessage::Status(s)) => {
            assert_eq!(s.status, UserStatus::Joined);
        }
        _ => panic!("status frames go out as full envelopes"),
    }
}
