# yac

Yet another chat over websockets. Users log in over HTTP, create and join
chats, open a websocket per device and publish messages; every message
published in a chat reaches every connected device of every member of the
chat. Messages travel through a redis channel so that several server
instances can share them.

## Layout

- `src/` is the verified library (Verus):
  - `models.rs`: identifiers and the events exchanged between the services;
  - `id_set.rs`: sets of identifiers kept in vectors;
  - `id_gen.rs`: fresh identifiers from `hyperid`, rendered as hexadecimal;
  - `jwt.rs`: HS256 JSON web tokens, made and checked by `jsonwebtoken`;
  - `chat_service.rs`: chats, memberships, devices and who a message
    reaches, with the laws that tie these operations together;
  - `credential_service.rs`: the known users, login and token checks;
  - `ws_pool.rs`: what the pool of websockets does with each event;
  - `web_service/` and `handlers/`: the endpoints (login, chats, websocket
    upgrade, `Authorization` header, error replies);
  - `config.rs`: the server's configuration and its defaults.
- `app/` is the server around the library: warp routes, websockets, the
  redis bridge and JSON encoding.
- `tests/` exercises the library, including the whole flow of two users
  chatting.

## Identifiers

Chat and device identifiers are the 17 bytes of a `hyperid` identifier in
lowercase hexadecimal (34 characters). `hyperid` also offers a base64
rendering behind its `url_safe` feature, but in its 2.3.1 release that
feature calls `base64::encode_config`, which the base64 releases it resolves
to (0.21 and later) no longer provide, so it does not compile.

The last byte of a `hyperid` identifier is a counter that its generator
steps by one (wrapping after 255, when it also draws a new random base), so
an identifier differs from the 255 issued just before it by the same
generator. `IdGenerator` keeps, as ghost state, the record of what it has
issued, and the contracts of chat creation and websocket upgrade state this
freshness over that record.
