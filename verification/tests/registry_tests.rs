use chatcore::errors::ApiError;
use chatcore::registry::is_user_in_chat;
use chatcore::registry::ConnectionManager;
use chatcore::wire::ChatMessage;
use chatcore::wire::InvitationNotification;
use chatcore::wire::UserStatus;
use chatcore::wire::WebSocketMessage;
use tokio::sync::broadcast::error::TryRecvError;

const NOW: u64 = 1_700_000_000;
const ROOM: u128 = 10;

fn chat_frame(content: &str) -> WebSocketMessage {
    WebSocketMessage::Chat(ChatMessage {
        message_id: 1,
        chat_id: ROOM,
        sender_id: 2,
        content: content.to_string(),
        timestamp: NOW,
    })
}

fn text_of(frame: WebSocketMessage) -> String {
    match frame {
        WebSocketMessage::Chat(cm) => cm.content,
        _ => panic!("expected a chat frame"),
    }
}

#[test]
fn fan_out_reaches_every_member_once() {
    let mut cm = ConnectionManager::new();
    let mut rx1 = cm.add_user_to_chat(ROOM, 1, NOW);
    let mut rx2 = cm.add_user_to_chat(ROOM, 2, NOW);
    cm.broadcast_to_chat(ROOM, 1, chat_frame("hi"));

    assert_eq!(text_of(rx1.try_recv().expect("member 1 observes")), "hi");
    assert_eq!(text_of(rx2.try_recv().expect("member 2 observes")), "hi");
    assert!(matches!(rx1.try_recv(), Err(TryRecvError::Empty)));
    assert!(matches!(rx2.try_recv(), Err(TryRecvError::Empty)));
}

#[test]
fn late_subscriber_observes_nothing() {
    let mut cm = ConnectionManager::new();
    let _rx1 = cm.add_user_to_chat(ROOM, 1, NOW);
    cm.broadcast_to_chat(ROOM, 1, chat_frame("before"));
    let mut rx2 = cm.add_user_to_chat(ROOM, 2, NOW);
    assert!(matches!(rx2.try_recv(), Err(TryRecvError::Empty)));
}

#[test]
fn sender_receives_its_own_echo() {
    let mut cm = ConnectionManager::new();
    let mut rx = cm.add_user_to_chat(ROOM, 1, NOW);
    cm.broadcast_to_chat(ROOM, 1, chat_frame("echo"));
    assert_eq!(text_of(rx.try_recv().unwrap()), "echo");
}

#[test]
fn rejoining_yields_an_independent_subscription() {
    let mut cm = ConnectionManager::new();
    let mut first = cm.add_user_to_chat(ROOM, 1, NOW);
    let mut second = cm.add_user_to_chat(ROOM, 1, NOW + 1);
    cm.broadcast_to_chat(ROOM, 1, chat_frame("both"));
    assert_eq!(text_of(first.try_recv().unwrap()), "both");
    assert_eq!(text_of(second.try_recv().unwrap()), "both");
    assert_eq!(cm.chats.len(), 1);
    assert_eq!(cm.chats[0].users.len(), 1);
}

#[test]
fn leaving_twice_is_a_no_op() {
    let mut cm = ConnectionManager::new();
    let _rx = cm.add_user_to_chat(ROOM, 1, NOW);
    let _rx2 = cm.add_user_to_chat(ROOM, 2, NOW);
    cm.remove_user_from_chat(ROOM, 1);
    assert!(!is_user_in_chat(&cm, ROOM, 1));
    cm.remove_user_from_chat(ROOM, 1);
    assert!(!is_user_in_chat(&cm, ROOM, 1));
    assert!(is_user_in_chat(&cm, ROOM, 2));
}

#[test]
fn last_member_leaving_drops_the_room() {
    let mut cm = ConnectionManager::new();
    let mut rx = cm.add_user_to_chat(ROOM, 1, NOW);
    cm.remove_user_from_chat(ROOM, 1);
    assert_eq!(cm.chats.len(), 0);
    assert!(matches!(rx.try_recv(), Err(TryRecvError::Closed)));
    cm.broadcast_to_chat(ROOM, 1, chat_frame("nobody"));
}

#[test]
fn direct_push_reaches_an_online_user() {
    let mut cm = ConnectionManager::new();
    let mut rx = cm.register_connection(7, "bob".to_string());
    let note = WebSocketMessage::Invitation(InvitationNotification {
        invitation_id: 5,
        chat_id: ROOM,
        inviter_username: "alice".to_string(),
        timestamp: NOW,
    });
    assert_eq!(cm.send_direct_message(7, note), Ok(()));
    match rx.try_recv().expect("push should be delivered") {
        WebSocketMessage::Invitation(n) => {
            assert_eq!(n.invitation_id, 5);
            assert_eq!(n.inviter_username, "alice");
        }
        _ => panic!("expected an invitation frame"),
    }
}

#[test]
fn direct_push_to_offline_user_reports_user_offline() {
    let cm = ConnectionManager::new();
    let note = WebSocketMessage::Invitation(InvitationNotification {
        invitation_id: 5,
        chat_id: ROOM,
        inviter_username: "alice".to_string(),
        timestamp: NOW,
    });
    assert_eq!(cm.send_direct_message(7, note), Err(ApiError::NotFound));
}

#[test]
fn online_lookup_resolves_by_username() {
    let mut cm = ConnectionManager::new();
    let _rx = cm.register_connection(7, "bob".to_string());
    let found = cm.get_online_user(&"bob".to_string()).expect("online");
    assert_eq!(found.id, 7);
    assert!(cm.get_online_user(&"carol".to_string()).is_none());
}

#[test]
fn reregistering_replaces_the_direct_channel() {
    let mut cm = ConnectionManager::new();
    let mut old_rx = cm.register_connection(7, "bob".to_string());
    let _new_rx = cm.register_connection(7, "bob".to_string());
    assert_eq!(cm.connections.len(), 1);
    assert!(matches!(old_rx.try_recv(), Err(TryRecvError::Closed)));
}

#[test]
fn unregister_removes_user_from_every_room() {
    let mut cm = ConnectionManager::new();
    let _d = cm.register_connection(1, "alice".to_string());
    let _a = cm.add_user_to_chat(10, 1, NOW);
    let _b = cm.add_user_to_chat(11, 1, NOW);
    let _c = cm.add_user_to_chat(11, 2, NOW);
    cm.unregister_connection(1);
    assert_eq!(cm.connections.len(), 0);
    assert!(!is_user_in_chat(&cm, 10, 1));
    assert!(!is_user_in_chat(&cm, 11, 1));
    assert!(is_user_in_chat(&cm, 11, 2));
    assert_eq!(cm.chats.len(), 1);
}

#[test]
fn unregister_without_endpoint_is_a_no_op() {
    let mut cm = ConnectionManager::new();
    let _a = cm.add_user_to_chat(10, 1, NOW);
    cm.unregister_connection(1);
    assert!(is_user_in_chat(&cm, 10, 1));
    cm.unregister_connection(99);
}

#[test]
fn status_update_refreshes_the_member_session() {
    let mut cm = ConnectionManager::new();
    let _rx = cm.add_user_to_chat(ROOM, 1, NOW);
    cm.update_user_status(ROOM, 1, UserStatus::Typing, NOW + 9);
    assert_eq!(cm.chats[0].users[0].status, UserStatus::Typing);
    assert_eq!(cm.chats[0].users[0].last_activity, NOW + 9);
    cm.update_user_status(ROOM, 99, UserStatus::Idle, NOW + 10);
    assert_eq!(cm.chats[0].users.len(), 1);
}

#[test]
fn broadcast_message_uses_the_same_channel() {
    let mut cm = ConnectionManager::new();
    let mut rx = cm.add_user_to_chat(ROOM, 1, NOW);
    cm.broadcast_message(chat_frame("sync path"), ROOM, 1);
    assert_eq!(text_of(rx.try_recv().unwrap()), "sync path");
}

#[test]
fn direct_push_succeeds_even_without_a_listener() {
    let mut cm = ConnectionManager::new();
    // the endpoint exists, but its only subscription is dropped at once
    drop(cm.register_connection(7, "bob".to_string()));
    let note = WebSocketMessage::Invitation(InvitationNotification {
        invitation_id: 5,
        chat_id: ROOM,
        inviter_username: "alice".to_string(),
        timestamp: NOW,
    });
    assert_eq!(cm.send_direct_message(7, note), Ok(()));
}
