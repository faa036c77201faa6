//! Opening a websocket: who connects, and which device the socket becomes.
use vstd::prelude::*;

use crate::credential_service::{decode_outcome, CredentialService, CredentialServiceError};
use crate::id_gen::{fresh_id, hex_text, IdGenerator};
use crate::models::{DeviceId, WsContext};

verus! {

/// The query of a websocket request: the token of the connecting user.
pub struct WsQueryParameter {
    pub jwt: String,
}

/// Accepts a websocket request: the token must pass the token check, and
/// the socket becomes a device of the user the token names, named by the
/// next identifier of `device_generator` (which differs from the last 255 it
/// issued before). A refused request leaves the generator untouched.
pub fn ws(
    credential_service: &CredentialService,
    device_generator: &mut IdGenerator,
    params: &WsQueryParameter,
) -> (r: Result<WsContext, CredentialServiceError>)
    requires
        old(device_generator).wf(),
    ensures
        final(device_generator).wf(),
        match r {
            Ok(context) => {
                &&& decode_outcome(params.jwt@, Ok(context.user_id))
                &&& final(device_generator).issued().len() == old(device_generator).issued().len()
                    + 1
                &&& final(device_generator).issued().drop_last() == old(device_generator).issued()
                &&& context.device_id@ == hex_text(final(device_generator).issued().last())
                &&& context.device_id@.len() == 34
                &&& forall|k: int|
                    0 <= k < old(device_generator).issued().len() && old(
                        device_generator,
                    ).issued().len() - k < 256 ==> #[trigger] hex_text(
                        old(device_generator).issued()[k],
                    ) != context.device_id@
            },
            Err(e) => {
                &&& decode_outcome(params.jwt@, Err(e))
                &&& *final(device_generator) == *old(device_generator)
            },
        },
{
    let user_id = match credential_service.try_decode(params.jwt.as_str()) {
        Ok(user_id) => user_id,
        Err(e) => return Err(e),
    };
    let device_id = DeviceId::new(fresh_id(device_generator));
    Ok(WsContext::new(user_id, device_id))
}

} // verus!
