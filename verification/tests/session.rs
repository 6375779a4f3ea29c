use yewchat::chat::{Chat, Effect, Msg};
use yewchat::roster::avatar_url;

const BASE: &str = "https://avatars.dicebear.com/api/adventurer-neutral/";

fn url(name: &str) -> Vec<u8> {
    let mut v = BASE.as_bytes().to_vec();
    v.extend_from_slice(name.as_bytes());
    v.extend_from_slice(b".svg");
    v
}

#[test]
fn init_sends_register() {
    let (chat, frame) = Chat::create(b"Alice".to_vec());
    assert_eq!(
        frame,
        b"{\"messageType\":\"register\",\"data\":\"Alice\"}".to_vec()
    );
    assert_eq!(chat.local_name, b"Alice".to_vec());
    assert!(chat.users.is_empty());
    assert!(chat.messages.is_empty());
}

#[test]
fn roster_snapshot_in_order() {
    let (mut chat, _) = Chat::create(b"Alice".to_vec());
    let render = chat.handle_msg(b"{\"messageType\":\"users\",\"dataArray\":[\"Alice\",\"Bob\"]}");
    assert!(render);
    assert_eq!(chat.users.len(), 2);
    assert_eq!(chat.users[0].name, b"Alice".to_vec());
    assert_eq!(chat.users[0].avatar, url("Alice"));
    assert_eq!(chat.users[1].name, b"Bob".to_vec());
    assert_eq!(chat.users[1].avatar, url("Bob"));
}

#[test]
fn roster_snapshot_replaces_fully() {
    let (mut chat, _) = Chat::create(b"Alice".to_vec());
    chat.handle_msg(b"{\"messageType\":\"users\",\"dataArray\":[\"Alice\",\"Bob\"]}");
    chat.handle_msg(b"{\"messageType\":\"users\",\"dataArray\":[\"Carol\"]}");
    assert_eq!(chat.users.len(), 1);
    assert_eq!(chat.users[0].name, b"Carol".to_vec());
}

#[test]
fn roster_keeps_duplicates() {
    let (mut chat, _) = Chat::create(b"Alice".to_vec());
    chat.handle_msg(b"{\"messageType\":\"users\",\"dataArray\":[\"Bob\",\"Bob\"]}");
    assert_eq!(chat.users.len(), 2);
    assert_eq!(chat.users[0].name, b"Bob".to_vec());
    assert_eq!(chat.users[1].name, b"Bob".to_vec());
}

#[test]
fn roster_without_list_is_empty() {
    let (mut chat, _) = Chat::create(b"Alice".to_vec());
    chat.handle_msg(b"{\"messageType\":\"users\",\"dataArray\":[\"Bob\"]}");
    let render = chat.handle_msg(b"{\"messageType\":\"users\"}");
    assert!(render);
    assert!(chat.users.is_empty());
}

#[test]
fn avatar_is_percent_encoded() {
    let (mut chat, _) = Chat::create(b"Alice".to_vec());
    chat.handle_msg(b"{\"messageType\":\"users\",\"dataArray\":[\"A B/c\"]}");
    assert_eq!(chat.users[0].avatar, url("A%20B%2Fc"));
    assert_eq!(avatar_url(b"A B/c"), url("A%20B%2Fc"));
    assert_eq!(avatar_url(b"Tilde~-._ok"), url("Tilde~-._ok"));
}

#[test]
fn inbound_message_appends() {
    let (mut chat, _) = Chat::create(b"Alice".to_vec());
    let render = chat.handle_msg(
        b"{\"messageType\":\"message\",\"data\":\"{\\\"from\\\":\\\"Bob\\\",\\\"message\\\":\\\"hi\\\"}\"}",
    );
    assert!(render);
    assert_eq!(chat.messages.len(), 1);
    assert_eq!(chat.messages[0].from, b"Bob".to_vec());
    assert_eq!(chat.messages[0].message, b"hi".to_vec());
    assert!(!chat.messages[0].is_self_authored());
}

#[test]
fn messages_append_in_order() {
    let (mut chat, _) = Chat::create(b"Alice".to_vec());
    chat.handle_msg(
        b"{\"messageType\":\"message\",\"data\":\"{\\\"from\\\":\\\"Bob\\\",\\\"message\\\":\\\"one\\\"}\"}",
    );
    chat.handle_msg(
        b"{\"messageType\":\"message\",\"data\":\"{\\\"from\\\":\\\"You\\\",\\\"message\\\":\\\"two\\\"}\"}",
    );
    assert_eq!(chat.messages.len(), 2);
    assert_eq!(chat.messages[0].message, b"one".to_vec());
    assert_eq!(chat.messages[1].message, b"two".to_vec());
    assert!(chat.messages[1].is_self_authored());
}

#[test]
fn submit_sends_and_does_not_append() {
    let (chat, _) = Chat::create(b"Alice".to_vec());
    let out = chat.submit_message(b"hello");
    assert_eq!(
        out,
        Some(b"{\"messageType\":\"message\",\"data\":\"hello\"}".to_vec())
    );
    assert!(chat.messages.is_empty());
}

#[test]
fn empty_submission_is_suppressed() {
    let (chat, _) = Chat::create(b"Alice".to_vec());
    assert_eq!(chat.submit_message(b""), None);
    assert!(chat.messages.is_empty());
}

#[test]
fn malformed_frame_changes_nothing() {
    let (mut chat, _) = Chat::create(b"Alice".to_vec());
    chat.handle_msg(b"{\"messageType\":\"users\",\"dataArray\":[\"Bob\"]}");
    let users_before = chat.users.len();
    let messages_before = chat.messages.len();
    assert!(!chat.handle_msg(b"garbage"));
    assert!(!chat.handle_msg(b"{\"messageType\":\"presence\"}"));
    assert!(!chat.handle_msg(b"{\"messageType\":\"message\"}"));
    assert!(!chat.handle_msg(b"{\"messageType\":\"message\",\"data\":\"not an entry\"}"));
    assert!(!chat.handle_msg(b"{\"messageType\":\"register\",\"data\":\"Eve\"}"));
    assert_eq!(chat.users.len(), users_before);
    assert_eq!(chat.messages.len(), messages_before);
    assert_eq!(chat.users[0].name, b"Bob".to_vec());
}

#[test]
fn update_dispatches_inbound() {
    let (mut chat, _) = Chat::create(b"Alice".to_vec());
    let eff: Effect = chat.update(Msg::HandleMsg(
        b"{\"messageType\":\"users\",\"dataArray\":[\"Bob\"]}".to_vec(),
    ));
    assert!(eff.render);
    assert_eq!(eff.outbound, None);
    assert_eq!(chat.users.len(), 1);
}

#[test]
fn update_dispatches_submission() {
    let (mut chat, _) = Chat::create(b"Alice".to_vec());
    let eff = chat.update(Msg::SubmitMessage(b"hello".to_vec()));
    assert!(!eff.render);
    assert_eq!(
        eff.outbound,
        Some(b"{\"messageType\":\"message\",\"data\":\"hello\"}".to_vec())
    );
    let eff2 = chat.update(Msg::SubmitMessage(Vec::new()));
    assert_eq!(eff2.outbound, None);
    assert!(chat.messages.is_empty());
}
