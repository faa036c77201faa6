//! The requests that the HTTP and websocket endpoints serve.
pub mod http_handlers;
pub mod resolve_jwt;
pub mod ws;
