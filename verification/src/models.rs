//! The values exchanged between the services of the chat.
use vstd::prelude::*;
use vstd::std_specs::cmp::PartialEqSpecImpl;
use vstd::std_specs::convert::FromSpecImpl;

use crate::id_set::Ident;

verus! {

/// The identifier of a user.
#[derive(Clone, Debug, Hash)]
pub struct UserId(pub String);

/// The identifier of a connected device (one websocket).
#[derive(Clone, Debug, Hash)]
pub struct DeviceId(String);

/// The identifier of a chat.
#[derive(Clone, Debug, Hash)]
pub struct ChatId(pub String);

impl View for UserId {
    type V = Seq<char>;

    open spec fn view(&self) -> Seq<char> {
        self.0@
    }
}

impl View for DeviceId {
    type V = Seq<char>;

    closed spec fn view(&self) -> Seq<char> {
        self.0@
    }
}

impl View for ChatId {
    type V = Seq<char>;

    open spec fn view(&self) -> Seq<char> {
        self.0@
    }
}

impl Ident for UserId {
    fn same_as(&self, other: &Self) -> (r: bool) {
        self.0 == other.0
    }

    fn duplicate(&self) -> (r: Self) {
        UserId(self.0.clone())
    }
}

impl Ident for DeviceId {
    fn same_as(&self, other: &Self) -> (r: bool) {
        self.0 == other.0
    }

    fn duplicate(&self) -> (r: Self) {
        DeviceId(self.0.clone())
    }
}

impl Ident for ChatId {
    fn same_as(&self, other: &Self) -> (r: bool) {
        self.0 == other.0
    }

    fn duplicate(&self) -> (r: Self) {
        ChatId(self.0.clone())
    }
}

impl PartialEq for UserId {
    fn eq(&self, other: &Self) -> (r: bool) {
        self.0 == other.0
    }
}

impl PartialEqSpecImpl for UserId {
    open spec fn obeys_eq_spec() -> bool {
        true
    }

    open spec fn eq_spec(&self, other: &Self) -> bool {
        self@ == other@
    }
}

impl Eq for UserId {

}

impl PartialEq for DeviceId {
    fn eq(&self, other: &Self) -> (r: bool) {
        self.0 == other.0
    }
}

impl PartialEqSpecImpl for DeviceId {
    open spec fn obeys_eq_spec() -> bool {
        true
    }

    open spec fn eq_spec(&self, other: &Self) -> bool {
        self@ == other@
    }
}

impl Eq for DeviceId {

}

impl PartialEq for ChatId {
    fn eq(&self, other: &Self) -> (r: bool) {
        self.0 == other.0
    }
}

impl PartialEqSpecImpl for ChatId {
    open spec fn obeys_eq_spec() -> bool {
        true
    }

    open spec fn eq_spec(&self, other: &Self) -> bool {
        self@ == other@
    }
}

impl Eq for ChatId {

}


impl From<String> for UserId {
    fn from(s: String) -> (r: UserId) {
        UserId(s)
    }
}

impl FromSpecImpl<String> for UserId {
    open spec fn obeys_from_spec() -> bool {
        true
    }

    open spec fn from_spec(s: String) -> UserId {
        UserId(s)
    }
}

impl From<String> for ChatId {
    fn from(s: String) -> (r: ChatId) {
        ChatId(s)
    }
}

impl FromSpecImpl<String> for ChatId {
    open spec fn obeys_from_spec() -> bool {
        true
    }

    open spec fn from_spec(s: String) -> ChatId {
        ChatId(s)
    }
}

impl DeviceId {
    /// A device identifier made of the given text.
    pub fn new(id: String) -> (r: DeviceId)
        ensures
            r@ == id@,
    {
        DeviceId(id)
    }

    /// The text of the identifier.
    pub fn as_string(&self) -> (r: &String)
        ensures
            r@ == self@,
    {
        &self.0
    }
}

impl core::str::FromStr for UserId {
    type Err = ();

    fn from_str(s: &str) -> (r: Result<Self, Self::Err>)
        ensures
            r matches Ok(id) && id@ == s@,
    {
        Ok(UserId(s.to_owned()))
    }
}

impl core::str::FromStr for ChatId {
    type Err = ();

    fn from_str(s: &str) -> (r: Result<Self, Self::Err>)
        ensures
            r matches Ok(id) && id@ == s@,
    {
        Ok(ChatId(s.to_owned()))
    }
}

/// Who is on the other side of a websocket: the user and the device.
#[derive(Debug)]
pub struct WsContext {
    pub user_id: UserId,
    pub device_id: DeviceId,
}

impl View for WsContext {
    type V = (Seq<char>, Seq<char>);

    open spec fn view(&self) -> (Seq<char>, Seq<char>) {
        (self.user_id@, self.device_id@)
    }
}

impl WsContext {
    pub fn new(user_id: UserId, device_id: DeviceId) -> (r: WsContext)
        ensures
            r.user_id == user_id,
            r.device_id == device_id,
    {
        WsContext { user_id, device_id }
    }

    /// A copy of the context.
    pub fn duplicate(&self) -> (r: WsContext)
        ensures
            r@ == self@,
    {
        WsContext { user_id: self.user_id.duplicate(), device_id: self.device_id.duplicate() }
    }
}

/// A request to add a user to a chat.
#[derive(Debug)]
pub struct AddToChat {
    pub chat_id: ChatId,
}

/// A request to remove a user from a chat.
#[derive(Debug)]
pub struct RemoveFromChat {
    pub chat_id: ChatId,
}

/// A message that a device wants to publish in a chat.
#[derive(Debug)]
pub struct SendMessageInChat {
    pub chat_id: ChatId,
    pub text: String,
}

/// A message as it is delivered to the devices of a chat.
#[derive(Debug)]
pub struct PublishedMessage {
    pub writer: UserId,
    pub chat_id: ChatId,
    pub text: String,
}

impl View for PublishedMessage {
    type V = (Seq<char>, Seq<char>, Seq<char>);

    open spec fn view(&self) -> (Seq<char>, Seq<char>, Seq<char>) {
        (self.writer@, self.chat_id@, self.text@)
    }
}

impl PublishedMessage {
    /// A copy of the message.
    pub fn duplicate(&self) -> (r: PublishedMessage)
        ensures
            r@ == self@,
    {
        PublishedMessage {
            writer: self.writer.duplicate(),
            chat_id: self.chat_id.duplicate(),
            text: self.text.clone(),
        }
    }
}

/// The events that flow towards the pool of websockets.
#[derive(Debug)]
pub enum Item {
    /// A device connected: the pool starts serving it.
    AddDevice(WsContext),
    /// A device went away: the pool stops serving it.
    RemoveDevice(DeviceId),
    /// Deliver the message to these devices.
    PublishMessage(Vec<DeviceId>, PublishedMessage),
    /// A device asked to publish a message in a chat.
    SendMessageInChat(WsContext, SendMessageInChat),
}

} // verus!
