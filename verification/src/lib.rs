//! A chat over websockets: users log in, create and join chats, connect
//! devices and publish messages that reach every device of every member of
//! the chat.
pub mod chat_service;
pub mod config;
pub mod credential_service;
pub mod handlers;
pub mod id_gen;
pub mod id_set;
pub mod jwt;
pub mod models;
pub mod web_service;
pub mod ws_pool;
