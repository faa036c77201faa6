use yac::chat_service::{ChatService, ChatServiceError};
use yac::config::{default_port, default_redis, default_redis_channel, Config};
use yac::credential_service::{CredentialService, CredentialServiceError};
use yac::id_gen::{fresh_id, to_hex, IdGenerator};
use yac::models::{ChatId, DeviceId, Item, PublishedMessage, SendMessageInChat, UserId, WsContext};
use yac::web_service::http_handlers::{handle_rejection, RejectionCause};
use yac::web_service::ws::{ws, WsQueryParameter};
use yac::ws_pool::{handle_event, remove_device, PoolAction, SocketMessage, WsPool};

fn device(d: &str) -> DeviceId {
    DeviceId::new(d.to_string())
}

fn context(u: &str, d: &str) -> WsContext {
    WsContext::new(UserId(u.to_string()), device(d))
}

fn message() -> PublishedMessage {
    PublishedMessage { writer: UserId("foo".to_string()), chat_id: ChatId("c".to_string()), text: "t".to_string() }
}

#[test]
fn pool_delivers_only_to_served_devices() {
    let mut pool = WsPool::new();
    pool.add_device(&context("foo", "a"));
    pool.add_device(&context("bar", "b"));
    let targets = pool.send_message_to(&vec![device("a"), device("c"), device("b")]);
    assert_eq!(targets, vec![device("a"), device("b")]);
    pool.remove_device(&device("a"));
    assert_eq!(pool.send_message_to(&vec![device("a"), device("b")]), vec![device("b")]);
}

#[test]
fn pool_actions() {
    let mut pool = WsPool::new();
    match pool.handle_item(Item::AddDevice(context("foo", "a"))) {
        PoolAction::Attach(c) => assert_eq!(c.device_id, device("a")),
        other => panic!("{:?}", other),
    }
    assert!(pool.serves(&device("a")));
    match pool.handle_item(Item::PublishMessage(vec![device("a"), device("z")], message())) {
        PoolAction::Deliver(targets, m) => {
            assert_eq!(targets, vec![device("a")]);
            assert_eq!(m.text, "t");
        }
        other => panic!("{:?}", other),
    }
    let smic = SendMessageInChat { chat_id: ChatId("c".to_string()), text: "x".to_string() };
    match pool.handle_item(Item::SendMessageInChat(context("foo", "a"), smic)) {
        PoolAction::ForwardToRedis(c, s) => {
            assert_eq!(c.user_id.0, "foo");
            assert_eq!(s.text, "x");
        }
        other => panic!("{:?}", other),
    }
    match pool.handle_item(Item::RemoveDevice(device("a"))) {
        PoolAction::Detach(d) => assert_eq!(d, device("a")),
        other => panic!("{:?}", other),
    }
    assert!(!pool.serves(&device("a")));
}

#[test]
fn socket_events() {
    let mut cs = ChatService::new();
    let ctx = context("foo", "a");
    assert!(handle_event(&ctx, &mut cs, SocketMessage::Text(None)).is_none());
    assert!(handle_event(&ctx, &mut cs, SocketMessage::Other).is_none());
    match handle_event(&ctx, &mut cs, SocketMessage::Failed) {
        Some(Item::RemoveDevice(d)) => assert_eq!(d, device("a")),
        other => panic!("{:?}", other),
    }
    match remove_device(&mut cs, &ctx) {
        Some(Item::RemoveDevice(d)) => assert_eq!(d, device("a")),
        other => panic!("{:?}", other),
    }
    let smic = SendMessageInChat { chat_id: ChatId("c".to_string()), text: "x".to_string() };
    match handle_event(&ctx, &mut cs, SocketMessage::Text(Some(smic))) {
        Some(Item::SendMessageInChat(c, s)) => {
            assert_eq!(c.device_id, device("a"));
            assert_eq!(s.chat_id.0, "c");
        }
        other => panic!("{:?}", other),
    }
}

#[test]
fn rejections() {
    let r = handle_rejection(RejectionCause::NotFound);
    assert_eq!((r.code, r.message.as_str()), (404, "NOT_FOUND"));
    let r = handle_rejection(RejectionCause::Credential(CredentialServiceError::InvalidJWT));
    assert_eq!((r.code, r.message.as_str()), (400, "InvalidJWT"));
    let r = handle_rejection(RejectionCause::Credential(CredentialServiceError::NoCredentialFound));
    assert_eq!((r.code, r.message.as_str()), (400, "NoCredentialFound"));
    let r = handle_rejection(RejectionCause::Credential(CredentialServiceError::ErrorOnGeneratingJWT));
    assert_eq!((r.code, r.message.as_str()), (400, "ErrorOnGeneratingJWT"));
    let r = handle_rejection(RejectionCause::Chat(ChatServiceError::ChatNotFound));
    assert_eq!((r.code, r.message.as_str()), (400, "ChatNotFound"));
    let r = handle_rejection(RejectionCause::Chat(ChatServiceError::YouAreNotAPartecipant));
    assert_eq!((r.code, r.message.as_str()), (400, "YouAreNotAPartecipant"));
    let r = handle_rejection(RejectionCause::Unhandled);
    assert_eq!((r.code, r.message.as_str()), (500, "UNHANDLED_REJECTION"));
}

#[test]
fn config_defaults() {
    assert_eq!(default_port(), 8080);
    assert_eq!(default_redis(), "redis://127.0.0.1/");
    assert_eq!(default_redis_channel(), "chats");
    let c = Config::default();
    assert_eq!((c.redis_url.as_str(), c.port, c.redis_channel.as_str()), ("redis://127.0.0.1/", 8080, "chats"));
}

#[test]
fn hex_rendering() {
    assert_eq!(to_hex(&vec![]), "");
    assert_eq!(to_hex(&vec![0x00, 0x0f, 0xa5, 0xff]), "000fa5ff");
}

#[test]
fn fresh_ids_are_hex_and_distinct() {
    let mut g = IdGenerator::new();
    let a = fresh_id(&mut g);
    let b = fresh_id(&mut g);
    assert_eq!(a.len(), 34);
    assert!(a.chars().all(|c| c.is_ascii_hexdigit() && !c.is_ascii_uppercase()));
    assert_ne!(a, b);
}

#[test]
fn fresh_ids_count_and_stay_distinct_over_a_window() {
    let mut g = IdGenerator::new();
    let ids: Vec<String> = (0..300).map(|_| fresh_id(&mut g)).collect();
    for (k, id) in ids.iter().enumerate() {
        assert_eq!(&id[32..], format!("{:02x}", (k + 1) % 256));
    }
    for i in 0..ids.len() {
        for j in (i + 1)..ids.len().min(i + 256) {
            assert_ne!(ids[i], ids[j]);
        }
    }
    // the base stays the same until the counter wraps
    assert_eq!(ids[0][..32], ids[254][..32]);
}

#[test]
fn ws_names_a_device_for_the_token_user() {
    let cs = CredentialService::new();
    let mut g = IdGenerator::new();
    let (_, jwt) = cs.login("pluto".to_string(), "pluto".to_string()).unwrap();
    let ctx = ws(&cs, &mut g, &WsQueryParameter { jwt }).unwrap();
    assert_eq!(ctx.user_id.0, "pluto");
    assert_eq!(ctx.device_id.as_string().len(), 34);
    assert!(matches!(
        ws(&cs, &mut g, &WsQueryParameter { jwt: "bad".to_string() }),
        Err(CredentialServiceError::InvalidJWT)
    ));
}

#[test]
fn failed_delivery_drops_the_device() {
    let mut pool = WsPool::new();
    pool.add_device(&context("foo", "a"));
    assert!(pool.delivery_result(device("a"), true).is_none());
    assert!(pool.serves(&device("a")));
    match pool.delivery_result(device("a"), false) {
        Some(PoolAction::Detach(d)) => assert_eq!(d, device("a")),
        other => panic!("{:?}", other),
    }
    assert!(!pool.serves(&device("a")));
}
