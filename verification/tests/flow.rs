use yac::chat_service::{ChatService, ChatServiceError};
use yac::credential_service::CredentialService;
use yac::id_gen::IdGenerator;
use yac::models::{ChatId, DeviceId, Item, PublishedMessage, SendMessageInChat, UserId, WsContext};
use yac::web_service::http_handlers::{
    create_chat, disjoin_chat, join_chat, login, CreateChatRequest, LoginRequest,
};
use yac::handlers::resolve_jwt::resolve_jwt;
use yac::web_service::ws::{ws, WsQueryParameter};
use yac::ws_pool::{handle_event, PoolAction, SocketMessage, WsPool};

fn do_login(cs: &CredentialService, name: &str) -> (UserId, String) {
    let response = login(
        LoginRequest { username: name.to_string(), password: name.to_string() },
        cs,
    )
    .expect("login");
    (response.user_id, response.jwt)
}

/// Sends a text message from a device and runs it through the pool, the
/// (redis) forwarding and the chat service; returns the pool's action on
/// the published message, or the chat service's refusal.
fn send_text(
    context: &WsContext,
    chat_service: &mut ChatService,
    pool: &mut WsPool,
    chat_id: &ChatId,
    text: &str,
) -> Result<(Vec<DeviceId>, PublishedMessage), ChatServiceError> {
    let smic = SendMessageInChat { chat_id: chat_id.clone(), text: text.to_string() };
    let item = handle_event(context, chat_service, SocketMessage::Text(Some(smic))).expect("item");
    let (ctx, smic) = match pool.handle_item(item) {
        PoolAction::ForwardToRedis(ctx, smic) => (ctx, smic),
        other => panic!("unexpected action {:?}", other),
    };
    let published = chat_service.send_message(&ctx, smic)?;
    match pool.handle_item(published) {
        PoolAction::Deliver(targets, msg) => Ok((targets, msg)),
        other => panic!("unexpected action {:?}", other),
    }
}

fn connect(
    cs: &CredentialService,
    chat_service: &mut ChatService,
    pool: &mut WsPool,
    jwt: &str,
) -> WsContext {
    let mut generator = IdGenerator::new();
    let context = ws(cs, &mut generator, &WsQueryParameter { jwt: jwt.to_string() })
        .expect("ws");
    let item = chat_service.add_device(context.duplicate());
    match pool.handle_item(item) {
        PoolAction::Attach(c) => assert_eq!(c.device_id, context.device_id),
        other => panic!("unexpected action {:?}", other),
    }
    context
}

#[test]
fn test_flow() {
    let cs = CredentialService::new();
    let mut chat_service = ChatService::new();
    let mut pool = WsPool::new();

    let (user_id, jwt) = do_login(&cs, "pippo");
    assert_eq!(user_id.0, "pippo");
    let header = format!("Bearer {}", jwt);
    let auth = resolve_jwt(&cs, Some(header.as_str())).expect("auth");
    assert_eq!(auth.0, "pippo");
    let chat = create_chat(
        CreateChatRequest { name: "MyChatName".to_string() },
        auth.clone(),
        &mut chat_service,
    );
    let chat_id = chat.id.clone();
    assert_eq!(chat.name, "MyChatName");

    join_chat(user_id.clone(), chat_id.clone(), auth.clone(), &mut chat_service).expect("join");

    let ws_client = connect(&cs, &mut chat_service, &mut pool, &jwt);
    let (targets, msg) =
        send_text(&ws_client, &mut chat_service, &mut pool, &chat_id, "text").expect("send");
    assert_eq!(targets, vec![ws_client.device_id.clone()]);
    assert_eq!(msg.writer.0, "pippo");
    assert_eq!(msg.chat_id, chat_id);
    assert_eq!(msg.text, "text");

    let (user_id2, jwt2) = do_login(&cs, "pluto");
    join_chat(user_id2.clone(), chat_id.clone(), user_id2.clone(), &mut chat_service)
        .expect("join");
    let ws_client2 = connect(&cs, &mut chat_service, &mut pool, &jwt2);

    let (targets, msg) =
        send_text(&ws_client2, &mut chat_service, &mut pool, &chat_id, "text2").expect("send");
    // both users receive the message
    assert_eq!(targets.len(), 2);
    assert!(targets.contains(&ws_client.device_id));
    assert!(targets.contains(&ws_client2.device_id));
    assert_eq!(msg.writer.0, "pluto");
    assert_eq!(msg.chat_id, chat_id);
    assert_eq!(msg.text, "text2");

    disjoin_chat(user_id2.clone(), chat_id.clone(), user_id2.clone(), &mut chat_service)
        .expect("disjoin");
    let refused = send_text(
        &ws_client2,
        &mut chat_service,
        &mut pool,
        &chat_id,
        "this-message-should-never-be-received!",
    );
    assert!(matches!(refused, Err(ChatServiceError::YouAreNotAPartecipant)));

    let (targets, msg) =
        send_text(&ws_client, &mut chat_service, &mut pool, &chat_id, "text3").expect("send");
    assert_eq!(targets, vec![ws_client.device_id.clone()]);
    assert_eq!(msg.writer.0, "pippo");
    assert_eq!(msg.chat_id, chat_id);
    assert_eq!(msg.text, "text3");

    for client in [&ws_client2, &ws_client] {
        let item = handle_event(client, &mut chat_service, SocketMessage::Close).expect("item");
        match pool.handle_item(item) {
            PoolAction::Detach(d) => assert_eq!(d, client.device_id),
            other => panic!("unexpected action {:?}", other),
        }
        assert!(!pool.serves(&client.device_id));
    }
    match chat_service.send_message(
        &ws_client,
        SendMessageInChat { chat_id: chat_id.clone(), text: "late".to_string() },
    ) {
        Ok(Item::PublishMessage(devices, _)) => assert!(devices.is_empty()),
        other => panic!("unexpected result {:?}", other),
    }
}
