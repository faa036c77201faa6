//! The pool of connected websockets: which devices it serves, what it does
//! with each event that reaches it, and how an event coming from a socket
//! is turned into an event for the pool.
//!
//! The sockets themselves (their sending halves and their streams of
//! incoming messages) are held by the server loop; the pool decides, and
//! the loop carries out the returned action.
use vstd::prelude::*;

use crate::chat_service::{ChatService, ChatServiceView};
use crate::id_set::{contains_id, distinct_ids, id_set, insert_id, remove_id, Ident};
use crate::models::{DeviceId, Item, PublishedMessage, SendMessageInChat, WsContext};

verus! {

/// What the server loop must do after the pool handled an event.
#[derive(Debug)]
pub enum PoolAction {
    /// Publish the message on the shared channel, so that every server
    /// instance delivers it.
    ForwardToRedis(WsContext, SendMessageInChat),
    /// Start serving the device: keep its sending half, listen to its stream.
    Attach(WsContext),
    /// Stop serving the device: drop its sending half and its stream.
    Detach(DeviceId),
    /// Send the message to each of these devices.
    Deliver(Vec<DeviceId>, PublishedMessage),
}

/// What arrived from a socket.
#[derive(Debug)]
pub enum SocketMessage {
    /// A text message, with the request it holds if it is a valid
    /// `SendMessageInChat` in JSON.
    Text(Option<SendMessageInChat>),
    /// The client closed the socket.
    Close,
    /// Any other frame (binary, ping, pong).
    Other,
    /// Reading from the socket failed.
    Failed,
}

/// The devices the pool serves.
pub struct WsPool {
    devices: Vec<DeviceId>,
}

impl View for WsPool {
    type V = Set<Seq<char>>;

    closed spec fn view(&self) -> Set<Seq<char>> {
        id_set(self.devices@)
    }
}

impl WsPool {
    /// No device is listed twice.
    pub closed spec fn wf(&self) -> bool {
        distinct_ids(self.devices@)
    }

    /// A pool that serves no device.
    pub fn new() -> (r: WsPool)
        ensures
            r.wf(),
            r@ == Set::<Seq<char>>::empty(),
    {
        let r = WsPool { devices: Vec::new() };
        assert(r@ =~= Set::<Seq<char>>::empty());
        r
    }

    /// Whether the pool serves `device_id`.
    pub fn serves(&self, device_id: &DeviceId) -> (r: bool)
        ensures
            r == self@.contains(device_id@),
    {
        contains_id(&self.devices, device_id)
    }

    /// Starts serving the device of `context`.
    pub fn add_device(&mut self, context: &WsContext)
        requires
            old(self).wf(),
        ensures
            final(self).wf(),
            final(self)@ == old(self)@.insert(context.device_id@),
    {
        insert_id(&mut self.devices, context.device_id.duplicate());
    }

    /// Stops serving `device_id`.
    pub fn remove_device(&mut self, device_id: &DeviceId)
        requires
            old(self).wf(),
        ensures
            final(self).wf(),
            final(self)@ == old(self)@.remove(device_id@),
    {
        remove_id(&mut self.devices, device_id);
    }

    /// The devices among `device_ids` that the pool serves: a message for
    /// `device_ids` is sent to these, and the others are skipped (they went
    /// away after the message was addressed).
    pub fn send_message_to(&self, device_ids: &Vec<DeviceId>) -> (targets: Vec<DeviceId>)
        requires
            self.wf(),
        ensures
            id_set(targets@) == id_set(device_ids@).intersect(self@),
            distinct_ids(device_ids@) ==> distinct_ids(targets@),
    {
        let mut targets: Vec<DeviceId> = Vec::new();
        let mut i: usize = 0;
        while i < device_ids.len()
            invariant
                self.wf(),
                i <= device_ids@.len(),
                id_set(targets@) == id_set(device_ids@.take(i as int)).intersect(self@),
                distinct_ids(device_ids@) ==> distinct_ids(targets@),
                forall|a: int| 0 <= a < targets@.len() ==> exists|b: int|
                    0 <= b < i && #[trigger] targets@[a]@ == #[trigger] device_ids@[b]@,
            decreases device_ids.len() - i,
        {
            let d = &device_ids[i];
            let ghost before = targets@;
            if self.serves(d) {
                targets.push(d.duplicate());
                proof {
                    assert(targets@[before.len() as int]@ == device_ids@[i as int]@);
                    if distinct_ids(device_ids@) {
                        assert forall|a: int, b: int|
                            0 <= a < targets@.len() && 0 <= b < targets@.len() && a != b implies #[trigger] targets@[a]@
                            != #[trigger] targets@[b]@ by {
                            if a == before.len() {
                                let c = choose|c: int|
                                    0 <= c < i && #[trigger] before[b]@ == #[trigger] device_ids@[c]@;
                                assert(targets@[b] == before[b]);
                            } else if b == before.len() {
                                let c = choose|c: int|
                                    0 <= c < i && #[trigger] before[a]@ == #[trigger] device_ids@[c]@;
                                assert(targets@[a] == before[a]);
                            } else {
                                assert(targets@[a] == before[a]);
                                assert(targets@[b] == before[b]);
                            }
                        }
                    }
                    assert forall|a: int| 0 <= a < targets@.len() implies exists|b: int|
                        0 <= b < i + 1 && #[trigger] targets@[a]@ == #[trigger] device_ids@[b]@ by {
                        if a < before.len() {
                            assert(targets@[a] == before[a]);
                            let c = choose|c: int|
                                0 <= c < i && #[trigger] before[a]@ == #[trigger] device_ids@[c]@;
                            assert(targets@[a]@ == device_ids@[c]@);
                        } else {
                            assert(targets@[a]@ == device_ids@[i as int]@);
                        }
                    }
                }
            }
            proof {
                let prev = device_ids@.take(i as int);
                let next = device_ids@.take(i + 1);
                assert(id_set(next) =~= id_set(prev).insert(device_ids@[i as int]@)) by {
                    assert forall|x: Seq<char>| #[trigger] id_set(next).contains(x) implies id_set(
                        prev,
                    ).insert(device_ids@[i as int]@).contains(x) by {
                        let a = choose|a: int| 0 <= a < next.len() && #[trigger] next[a]@ == x;
                        if a < i {
                            assert(prev[a]@ == x);
                        }
                    }
                    assert forall|x: Seq<char>| #[trigger] id_set(prev).contains(x) implies id_set(
                        next,
                    ).contains(x) by {
                        let a = choose|a: int| 0 <= a < prev.len() && #[trigger] prev[a]@ == x;
                        assert(next[a]@ == x);
                    }
                    assert(next[i as int]@ == device_ids@[i as int]@);
                }
                assert forall|x: Seq<char>| #[trigger] id_set(targets@).contains(x) implies id_set(
                    next,
                ).intersect(self@).contains(x) by {
                    let a = choose|a: int| 0 <= a < targets@.len() && #[trigger] targets@[a]@ == x;
                    if a < before.len() {
                        assert(targets@[a] == before[a]);
                        assert(id_set(before).contains(x));
                    }
                }
                assert forall|x: Seq<char>| #[trigger]
                    id_set(next).intersect(self@).contains(x) implies id_set(targets@).contains(x) by {
                    if x == device_ids@[i as int]@ {
                        assert(targets@[before.len() as int]@ == x);
                    } else {
                        assert(id_set(prev).contains(x));
                        assert(id_set(before).contains(x));
                        let a = choose|a: int| 0 <= a < before.len() && #[trigger] before[a]@ == x;
                        assert(targets@[a] == before[a]);
                    }
                }
                assert(id_set(targets@) =~= id_set(next).intersect(self@));
            }
            i = i + 1;
        }
        assert(device_ids@.take(device_ids@.len() as int) =~= device_ids@);
        targets
    }

    /// Decides about a device to which a message was just sent: one whose
    /// sending failed is no longer served, and the server loop must drop it.
    pub fn delivery_result(&mut self, device_id: DeviceId, delivered: bool) -> (action: Option<
        PoolAction,
    >)
        requires
            old(self).wf(),
        ensures
            final(self).wf(),
            delivered ==> final(self)@ == old(self)@ && action is None,
            !delivered ==> final(self)@ == old(self)@.remove(device_id@) && action == Some(
                PoolAction::Detach(device_id),
            ),
    {
        if delivered {
            None
        } else {
            self.remove_device(&device_id);
            Some(PoolAction::Detach(device_id))
        }
    }

    /// Handles one event that reached the pool, and says what the server
    /// loop must do.
    pub fn handle_item(&mut self, item: Item) -> (action: PoolAction)
        requires
            old(self).wf(),
        ensures
            final(self).wf(),
            match item {
                Item::SendMessageInChat(context, smic) => final(self)@ == old(self)@
                    && action == PoolAction::ForwardToRedis(context, smic),
                Item::AddDevice(context) => final(self)@ == old(self)@.insert(context.device_id@)
                    && action == PoolAction::Attach(context),
                Item::RemoveDevice(device_id) => final(self)@ == old(self)@.remove(device_id@)
                    && action == PoolAction::Detach(device_id),
                Item::PublishMessage(device_ids, msg) => {
                    &&& final(self)@ == old(self)@
                    &&& action matches PoolAction::Deliver(targets, m)
                    &&& m == msg
                    &&& id_set(targets@) == id_set(device_ids@).intersect(old(self)@)
                    &&& distinct_ids(device_ids@) ==> distinct_ids(targets@)
                },
            },
    {
        match item {
            Item::SendMessageInChat(context, smic) => PoolAction::ForwardToRedis(context, smic),
            Item::AddDevice(context) => {
                self.add_device(&context);
                PoolAction::Attach(context)
            },
            Item::RemoveDevice(device_id) => {
                self.remove_device(&device_id);
                PoolAction::Detach(device_id)
            },
            Item::PublishMessage(device_ids, msg) => {
                let targets = self.send_message_to(&device_ids);
                PoolAction::Deliver(targets, msg)
            },
        }
    }
}

/// Forgets the device of `socket_context` in the chat service, and returns
/// the event that makes the pool stop serving it.
pub fn remove_device(chat_service: &mut ChatService, socket_context: &WsContext) -> (r: Option<
    Item,
>)
    requires
        old(chat_service).wf(),
    ensures
        final(chat_service).wf(),
        final(chat_service)@ == old(chat_service)@.remove_device(
            socket_context.user_id@,
            socket_context.device_id@,
        ),
        r matches Some(Item::RemoveDevice(d)) && d@ == socket_context.device_id@,
{
    let _ = chat_service.remove_device(socket_context);
    Some(Item::RemoveDevice(socket_context.device_id.duplicate()))
}

/// Turns what arrived from the socket of `socket_context` into an event for
/// the pool: a valid request to publish a message is forwarded, a closed or
/// failed socket is forgotten, and anything else is ignored.
pub fn handle_event(
    socket_context: &WsContext,
    chat_service: &mut ChatService,
    message: SocketMessage,
) -> (r: Option<Item>)
    requires
        old(chat_service).wf(),
    ensures
        final(chat_service).wf(),
        match message {
            SocketMessage::Text(Some(smic)) => {
                &&& final(chat_service)@ == old(chat_service)@
                &&& r matches Some(Item::SendMessageInChat(c, s))
                &&& c@ == socket_context@
                &&& s == smic
            },
            SocketMessage::Text(None) | SocketMessage::Other => final(chat_service)@ == old(
                chat_service,
            )@ && r is None,
            SocketMessage::Close | SocketMessage::Failed => {
                &&& final(chat_service)@ == old(chat_service)@.remove_device(
                    socket_context.user_id@,
                    socket_context.device_id@,
                )
                &&& r matches Some(Item::RemoveDevice(d))
                &&& d@ == socket_context.device_id@
            },
        },
{
    match message {
        SocketMessage::Text(Some(smic)) => Some(
            Item::SendMessageInChat(socket_context.duplicate(), smic),
        ),
        SocketMessage::Text(None) => None,
        SocketMessage::Other => None,
        SocketMessage::Close => remove_device(chat_service, socket_context),
        SocketMessage::Failed => remove_device(chat_service, socket_context),
    }
}


/// A message reaches a device the pool serves whenever it is addressed to
/// it, and never reaches a device the pool stopped serving.
pub proof fn law_delivery_follows_attachment(
    served: Set<Seq<char>>,
    d: Seq<char>,
    addressed: Set<Seq<char>>,
)
    ensures
        addressed.contains(d) ==> addressed.intersect(served.insert(d)).contains(d),
        !addressed.intersect(served.remove(d)).contains(d),
{
}

/// End to end: when a member of a chat publishes in it, the message is
/// delivered to every connected device of every member of the chat.
pub proof fn law_message_reaches_connected_member_devices(
    v: ChatServiceView,
    served: Set<Seq<char>>,
    w: Seq<char>,
    c: Seq<char>,
    u: Seq<char>,
    d: Seq<char>,
)
    requires
        v.chats.contains_key(c),
        v.chats[c].members.contains(w),
        v.chats[c].members.contains(u),
        v.devices_of(u).contains(d),
        served.contains(d),
    ensures
        v.send_outcome(w, c) is Ok,
        v.send_outcome(w, c)->Ok_0.intersect(served).contains(d),
{
    assert(v.recipients(c).contains(d));
}

} // verus!
