//! The reading of the `Authorization` header that the server uses: the
//! header must start with `Bearer `.
pub mod resolve_jwt;
