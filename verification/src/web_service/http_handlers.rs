//! The HTTP endpoints: log in, list and create chats, join and leave them,
//! and the error replies of rejected requests.
use vstd::prelude::*;

use crate::chat_service::{chats_map, chats_wf, Chat, ChatService, ChatServiceError, Chats};
use crate::credential_service::{login_outcome, login_view, CredentialService, CredentialServiceError};
use crate::id_gen::{counter_chain, hex_text};
use crate::models::{AddToChat, ChatId, RemoveFromChat, UserId};

verus! {

/// The body of a login request.
pub struct LoginRequest {
    pub username: String,
    pub password: String,
}

/// The reply to a successful login: the user and its token.
pub struct LoginResponse {
    pub user_id: UserId,
    pub jwt: String,
}

/// The body of a request to create a chat.
pub struct CreateChatRequest {
    pub name: String,
}

/// Why a request was rejected before or while it was served.
#[derive(Debug, Clone, Copy, PartialEq, Eq, Structural)]
pub enum RejectionCause {
    /// No endpoint matches the request.
    NotFound,
    /// The credentials or the token were refused.
    Credential(CredentialServiceError),
    /// The chat service refused the request.
    Chat(ChatServiceError),
    /// Anything else (a missing header, a malformed body, ...).
    Unhandled,
}

/// The body of an error reply.
pub struct ErrorMessage {
    pub code: u16,
    pub message: String,
}

/// The name of a credential error, as its `Debug` form writes it.
pub open spec fn credential_error_name(e: CredentialServiceError) -> Seq<char> {
    match e {
        CredentialServiceError::NoCredentialFound => "NoCredentialFound"@,
        CredentialServiceError::ErrorOnGeneratingJWT => "ErrorOnGeneratingJWT"@,
        CredentialServiceError::InvalidJWT => "InvalidJWT"@,
    }
}

/// The name of a chat error, as its `Debug` form writes it.
pub open spec fn chat_error_name(e: ChatServiceError) -> Seq<char> {
    match e {
        ChatServiceError::ChatNotFound => "ChatNotFound"@,
        ChatServiceError::YouAreNotAPartecipant => "YouAreNotAPartecipant"@,
    }
}

fn credential_error_text(e: CredentialServiceError) -> (s: String)
    ensures
        s@ == credential_error_name(e),
{
    match e {
        CredentialServiceError::NoCredentialFound => "NoCredentialFound".to_owned(),
        CredentialServiceError::ErrorOnGeneratingJWT => "ErrorOnGeneratingJWT".to_owned(),
        CredentialServiceError::InvalidJWT => "InvalidJWT".to_owned(),
    }
}

fn chat_error_text(e: ChatServiceError) -> (s: String)
    ensures
        s@ == chat_error_name(e),
{
    match e {
        ChatServiceError::ChatNotFound => "ChatNotFound".to_owned(),
        ChatServiceError::YouAreNotAPartecipant => "YouAreNotAPartecipant".to_owned(),
    }
}

/// The error reply of a rejected request: 404 `NOT_FOUND` when no endpoint
/// matches, 400 with the error's name when a service refused it, and 500
/// `UNHANDLED_REJECTION` otherwise.
pub fn handle_rejection(err: RejectionCause) -> (r: ErrorMessage)
    ensures
        match err {
            RejectionCause::NotFound => r.code == 404 && r.message@ == "NOT_FOUND"@,
            RejectionCause::Credential(e) => r.code == 400 && r.message@ == credential_error_name(
                e,
            ),
            RejectionCause::Chat(e) => r.code == 400 && r.message@ == chat_error_name(e),
            RejectionCause::Unhandled => r.code == 500 && r.message@ == "UNHANDLED_REJECTION"@,
        },
{
    match err {
        RejectionCause::NotFound => ErrorMessage { code: 404, message: "NOT_FOUND".to_owned() },
        RejectionCause::Credential(e) => ErrorMessage {
            code: 400,
            message: credential_error_text(e),
        },
        RejectionCause::Chat(e) => ErrorMessage { code: 400, message: chat_error_text(e) },
        RejectionCause::Unhandled => ErrorMessage {
            code: 500,
            message: "UNHANDLED_REJECTION".to_owned(),
        },
    }
}

/// Logs in with the name and password of the request (see
/// `CredentialService::login`).
pub fn login(request_body: LoginRequest, credential_service: &CredentialService) -> (r: Result<
    LoginResponse,
    CredentialServiceError,
>)
    ensures
        login_view(
            match r {
                Ok(response) => Ok((response.user_id, response.jwt)),
                Err(e) => Err(e),
            },
        ) == login_outcome(credential_service@, request_body.username@, request_body.password@),
{
    match credential_service.login(request_body.username, request_body.password) {
        Ok((user_id, jwt)) => Ok(LoginResponse { user_id, jwt }),
        Err(e) => Err(e),
    }
}

/// Every chat of the service, for an authenticated user.
pub fn get_chats(_user_id: UserId, chat_service: &ChatService) -> (r: Chats)
    requires
        chat_service.wf(),
    ensures
        chats_wf(r.0@),
        chats_map(r.0@) == chat_service@.chats,
{
    chat_service.list_chats()
}

/// Creates a chat named as the request says, created by the authenticated
/// user.
pub fn create_chat(
    request_body: CreateChatRequest,
    user_id: UserId,
    chat_service: &mut ChatService,
) -> (chat: Chat)
    requires
        old(chat_service).wf(),
    ensures
        final(chat_service).wf(),
        chat.wf(),
        chat@.id == chat.id@,
        chat@.creator == user_id@,
        chat@.name == request_body.name@,
        chat@.members == Set::<Seq<char>>::empty(),
        final(chat_service)@ == old(chat_service)@.with_created(chat@, final(chat_service)@.ids.last()),
        counter_chain(final(chat_service)@.ids),
        chat.id@ == hex_text(final(chat_service)@.ids.last()),
        chat.id@.len() == 34,
        forall|k: int|
            0 <= k < old(chat_service)@.ids.len() && old(chat_service)@.ids.len() - k < 256
                ==> #[trigger] hex_text(old(chat_service)@.ids[k]) != chat.id@,
        old(chat_service)@.chats.contains_key(chat.id@) ==> exists|k: int|
            0 <= k < old(chat_service)@.ids.len() - 255 && #[trigger] hex_text(
                old(chat_service)@.ids[k],
            ) == chat.id@,
{
    chat_service.create_chat(user_id, request_body.name)
}

/// User `user_id` joins chat `chat_id` (whoever is authenticated).
pub fn join_chat(
    user_id: UserId,
    chat_id: ChatId,
    _auth_user_id: UserId,
    chat_service: &mut ChatService,
) -> (r: Result<(), ChatServiceError>)
    requires
        old(chat_service).wf(),
    ensures
        final(chat_service).wf(),
        match old(chat_service)@.join(user_id@, chat_id@) {
            Ok(v) => r is Ok && final(chat_service)@ == v,
            Err(e) => r == Err::<(), ChatServiceError>(e) && final(chat_service)@ == old(
                chat_service,
            )@,
        },
{
    let add_to_chat = AddToChat { chat_id };
    chat_service.join_chat(user_id, add_to_chat)
}

/// User `user_id` leaves chat `chat_id` (whoever is authenticated).
pub fn disjoin_chat(
    user_id: UserId,
    chat_id: ChatId,
    _auth_user_id: UserId,
    chat_service: &mut ChatService,
) -> (r: Result<(), ChatServiceError>)
    requires
        old(chat_service).wf(),
    ensures
        final(chat_service).wf(),
        match old(chat_service)@.disjoin(user_id@, chat_id@) {
            Ok(v) => r is Ok && final(chat_service)@ == v,
            Err(e) => r == Err::<(), ChatServiceError>(e) && final(chat_service)@ == old(
                chat_service,
            )@,
        },
{
    let remove_from_chat = RemoveFromChat { chat_id };
    chat_service.disjoin_chat(user_id, remove_from_chat)
}

} // verus!
