use yac::chat_service::{ChatService, ChatServiceError};
use yac::models::{
    AddToChat, ChatId, DeviceId, Item, RemoveFromChat, SendMessageInChat, UserId, WsContext,
};
use yac::web_service::http_handlers::get_chats;

fn user(name: &str) -> UserId {
    UserId(name.to_string())
}

fn context(u: &str, d: &str) -> WsContext {
    WsContext::new(user(u), DeviceId::new(d.to_string()))
}

fn send(cs: &ChatService, u: &str, d: &str, chat: &ChatId, text: &str) -> Result<Item, ChatServiceError> {
    cs.send_message(&context(u, d), SendMessageInChat { chat_id: chat.clone(), text: text.to_string() })
}

fn recipients(result: Result<Item, ChatServiceError>) -> Vec<String> {
    match result {
        Ok(Item::PublishMessage(devices, _)) => {
            let mut v: Vec<String> = devices.iter().map(|d| d.as_string().clone()).collect();
            v.sort();
            v
        }
        other => panic!("unexpected {:?}", other),
    }
}

#[test]
fn new_service_lists_no_chat() {
    let cs = ChatService::new();
    assert!(cs.list_chats().0.is_empty());
}

#[test]
fn created_chat_is_listed_and_has_no_member() {
    let mut cs = ChatService::new();
    let chat = cs.create_chat(user("foo"), "general".to_string());
    assert_eq!(chat.creator, user("foo"));
    assert_eq!(chat.name, "general");
    assert!(chat.user_ids.is_empty());
    assert_eq!(chat.id.0.len(), 34);
    let other = cs.create_chat(user("bar"), "random".to_string());
    assert_ne!(chat.id, other.id);
    let listed = get_chats(user("foo"), &cs);
    assert_eq!(listed.0.len(), 2);
    assert!(listed.0.iter().any(|c| c.id == chat.id && c.name == "general"));
    assert!(listed.0.iter().any(|c| c.id == other.id && c.name == "random"));
}

#[test]
fn creator_cannot_publish_before_joining() {
    let mut cs = ChatService::new();
    let chat = cs.create_chat(user("foo"), "general".to_string());
    assert!(matches!(
        send(&cs, "foo", "d1", &chat.id, "hi"),
        Err(ChatServiceError::YouAreNotAPartecipant)
    ));
}

#[test]
fn unknown_chat_is_refused() {
    let mut cs = ChatService::new();
    let missing = ChatId("nope".to_string());
    assert!(matches!(send(&cs, "foo", "d1", &missing, "hi"), Err(ChatServiceError::ChatNotFound)));
    assert!(matches!(
        cs.join_chat(user("foo"), AddToChat { chat_id: missing.clone() }),
        Err(ChatServiceError::ChatNotFound)
    ));
    assert!(matches!(
        cs.disjoin_chat(user("foo"), RemoveFromChat { chat_id: missing }),
        Err(ChatServiceError::ChatNotFound)
    ));
}

#[test]
fn message_reaches_every_device_of_every_member() {
    let mut cs = ChatService::new();
    let chat = cs.create_chat(user("foo"), "general".to_string());
    cs.join_chat(user("foo"), AddToChat { chat_id: chat.id.clone() }).unwrap();
    cs.join_chat(user("bar"), AddToChat { chat_id: chat.id.clone() }).unwrap();
    cs.add_device(context("foo", "f1"));
    cs.add_device(context("foo", "f2"));
    cs.add_device(context("bar", "b1"));
    cs.add_device(context("pluto", "p1"));
    let result = send(&cs, "bar", "b1", &chat.id, "hello");
    if let Ok(Item::PublishMessage(_, msg)) = &result {
        assert_eq!(msg.writer, user("bar"));
        assert_eq!(msg.chat_id, chat.id);
        assert_eq!(msg.text, "hello");
    }
    assert_eq!(recipients(result), vec!["b1", "f1", "f2"]);
}

#[test]
fn joining_twice_is_joining_once() {
    let mut cs = ChatService::new();
    let chat = cs.create_chat(user("foo"), "general".to_string());
    cs.join_chat(user("foo"), AddToChat { chat_id: chat.id.clone() }).unwrap();
    cs.join_chat(user("foo"), AddToChat { chat_id: chat.id.clone() }).unwrap();
    let listed = cs.list_chats();
    assert_eq!(listed.0[0].user_ids, vec![user("foo")]);
    cs.disjoin_chat(user("foo"), RemoveFromChat { chat_id: chat.id.clone() }).unwrap();
    assert!(cs.list_chats().0[0].user_ids.is_empty());
}

#[test]
fn left_user_no_longer_reached_nor_allowed() {
    let mut cs = ChatService::new();
    let chat = cs.create_chat(user("foo"), "general".to_string());
    cs.join_chat(user("foo"), AddToChat { chat_id: chat.id.clone() }).unwrap();
    cs.join_chat(user("bar"), AddToChat { chat_id: chat.id.clone() }).unwrap();
    cs.add_device(context("foo", "f1"));
    cs.add_device(context("bar", "b1"));
    cs.disjoin_chat(user("bar"), RemoveFromChat { chat_id: chat.id.clone() }).unwrap();
    assert!(matches!(
        send(&cs, "bar", "b1", &chat.id, "hi"),
        Err(ChatServiceError::YouAreNotAPartecipant)
    ));
    assert_eq!(recipients(send(&cs, "foo", "f1", &chat.id, "hi")), vec!["f1"]);
}

#[test]
fn removed_device_no_longer_reached() {
    let mut cs = ChatService::new();
    let chat = cs.create_chat(user("foo"), "general".to_string());
    cs.join_chat(user("foo"), AddToChat { chat_id: chat.id.clone() }).unwrap();
    cs.add_device(context("foo", "f1"));
    cs.add_device(context("foo", "f2"));
    assert!(cs.remove_device(&context("foo", "f1")).is_ok());
    assert_eq!(recipients(send(&cs, "foo", "f2", &chat.id, "hi")), vec!["f2"]);
    // removing a device of an unknown user is accepted too
    assert!(cs.remove_device(&context("nobody", "x")).is_ok());
}

#[test]
fn add_device_hands_the_context_to_the_pool() {
    let mut cs = ChatService::new();
    match cs.add_device(context("foo", "f1")) {
        Item::AddDevice(c) => {
            assert_eq!(c.user_id, user("foo"));
            assert_eq!(c.device_id.as_string(), "f1");
        }
        other => panic!("unexpected {:?}", other),
    }
}

#[test]
fn consecutive_chats_are_both_kept() {
    let mut cs = ChatService::new();
    let first = cs.create_chat(user("foo"), "same".to_string());
    let second = cs.create_chat(user("foo"), "same".to_string());
    assert_ne!(first.id, second.id);
    let listed = cs.list_chats().0;
    assert_eq!(listed.len(), 2);
    assert!(listed.iter().any(|c| c.id == first.id));
    assert!(listed.iter().any(|c| c.id == second.id));
}

#[test]
fn many_chats_get_distinct_identifiers() {
    let mut cs = ChatService::new();
    for k in 0..255 {
        cs.create_chat(user("foo"), format!("chat {}", k));
    }
    assert_eq!(cs.list_chats().0.len(), 255);
}
