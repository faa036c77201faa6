//! Configuration of the chat server.
use vstd::prelude::*;

verus! {

/// The port the HTTP server listens on when none is configured.
pub fn default_port() -> (port: u16)
    ensures
        port == 8080,
{
    8080
}

/// The redis server used when none is configured.
pub fn default_redis() -> (url: String)
    ensures
        url@ == "redis://127.0.0.1/"@,
{
    "redis://127.0.0.1/".to_owned()
}

/// The redis channel used when none is configured.
pub fn default_redis_channel() -> (channel: String)
    ensures
        channel@ == "chats"@,
{
    "chats".to_owned()
}

/// Configuration of the chat server.
#[derive(Debug, Clone)]
pub struct Config {
    pub redis_url: String,
    pub port: u16,
    pub redis_channel: String,
}

impl Default for Config {
    fn default() -> (r: Self)
        ensures
            r.redis_url@ == "redis://127.0.0.1/"@,
            r.port == 8080,
            r.redis_channel@ == "chats"@,
    {
        Config {
            redis_url: default_redis(),
            port: default_port(),
            redis_channel: default_redis_channel(),
        }
    }
}

} // verus!
