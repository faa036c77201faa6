//! Which users are in which chats, which devices each user has connected,
//! and therefore which devices a message published in a chat must reach.
use vstd::prelude::*;

use crate::id_gen::{counter_chain, fresh_id, hex_text, law_recent_ids_distinct, IdGenerator};
use crate::id_set::{
    contains_id, distinct_ids, duplicate_ids, id_set, insert_id, remove_id, Ident,
};
use crate::models::{
    AddToChat, ChatId, DeviceId, Item, PublishedMessage, RemoveFromChat, SendMessageInChat,
    UserId, WsContext,
};

verus! {

/// Why the chat service refused a request.
#[derive(Debug, Clone, Copy, PartialEq, Eq, Structural)]
pub enum ChatServiceError {
    ChatNotFound,
    YouAreNotAPartecipant,
}

/// A chat: its identifier, who created it, its name and its members.
pub struct Chat {
    pub id: ChatId,
    pub creator: UserId,
    pub name: String,
    pub user_ids: Vec<UserId>,
}

/// The model of a chat.
pub struct ChatView {
    pub id: Seq<char>,
    pub creator: Seq<char>,
    pub name: Seq<char>,
    pub members: Set<Seq<char>>,
}

impl View for Chat {
    type V = ChatView;

    open spec fn view(&self) -> ChatView {
        ChatView {
            id: self.id@,
            creator: self.creator@,
            name: self.name@,
            members: id_set(self.user_ids@),
        }
    }
}

impl Chat {
    /// No member is listed twice.
    pub open spec fn wf(&self) -> bool {
        distinct_ids(self.user_ids@)
    }

    /// The user who created the chat.
    pub fn creator(&self) -> (r: &UserId)
        ensures
            r@ == self@.creator,
    {
        &self.creator
    }

    /// The name of the chat.
    pub fn name(&self) -> (r: &String)
        ensures
            r@ == self@.name,
    {
        &self.name
    }

    /// The members of the chat, each listed once.
    pub fn user_ids(&self) -> (r: &Vec<UserId>)
        requires
            self.wf(),
        ensures
            id_set(r@) == self@.members,
            distinct_ids(r@),
    {
        &self.user_ids
    }

    /// A copy of the chat.
    pub fn duplicate(&self) -> (r: Chat)
        requires
            self.wf(),
        ensures
            r@ == self@,
            r.id@ == self.id@,
            r.wf(),
    {
        Chat {
            id: self.id.duplicate(),
            creator: self.creator.duplicate(),
            name: self.name.clone(),
            user_ids: duplicate_ids(&self.user_ids),
        }
    }
}

/// All the chats of the service.
pub struct Chats(pub Vec<Chat>);

/// The chats held in `s`, by identifier.
pub open spec fn chats_map(s: Seq<Chat>) -> Map<Seq<char>, ChatView> {
    Map::new(
        |k: Seq<char>| exists|i: int| 0 <= i < s.len() && #[trigger] s[i].id@ == k,
        |k: Seq<char>| s[choose|i: int| 0 <= i < s.len() && #[trigger] s[i].id@ == k]@,
    )
}

/// No two chats of `s` share an identifier, and each chat is well formed.
pub open spec fn chats_wf(s: Seq<Chat>) -> bool {
    &&& forall|i: int, j: int|
        0 <= i < s.len() && 0 <= j < s.len() && i != j ==> #[trigger] s[i].id@ != #[trigger] s[j].id@
    &&& forall|i: int| 0 <= i < s.len() ==> #[trigger] s[i].wf()
}

/// The devices a user has connected.
struct UserDevices {
    user_id: UserId,
    devices: Vec<DeviceId>,
}

/// The devices held in `s`, by user.
spec fn devices_map(s: Seq<UserDevices>) -> Map<Seq<char>, Set<Seq<char>>> {
    Map::new(
        |k: Seq<char>| exists|i: int| 0 <= i < s.len() && #[trigger] s[i].user_id@ == k,
        |k: Seq<char>|
            id_set(s[choose|i: int| 0 <= i < s.len() && #[trigger] s[i].user_id@ == k].devices@),
    )
}

spec fn devices_wf(s: Seq<UserDevices>) -> bool {
    &&& forall|i: int, j: int|
        0 <= i < s.len() && 0 <= j < s.len() && i != j ==> #[trigger] s[i].user_id@
            != #[trigger] s[j].user_id@
    &&& forall|i: int| 0 <= i < s.len() ==> distinct_ids(#[trigger] s[i].devices@)
}

/// The model of the chat service: the chats by identifier, the devices of
/// each user, and the identifiers (as bytes) issued for chats so far, oldest
/// first.
pub struct ChatServiceView {
    pub chats: Map<Seq<char>, ChatView>,
    pub devices: Map<Seq<char>, Set<Seq<char>>>,
    pub ids: Seq<Seq<u8>>,
}

impl ChatServiceView {
    /// The devices that user `u` has connected (none if the service never
    /// heard of `u`).
    pub open spec fn devices_of(self, u: Seq<char>) -> Set<Seq<char>> {
        if self.devices.contains_key(u) {
            self.devices[u]
        } else {
            Set::empty()
        }
    }

    /// The service with `chat` stored under its identifier.
    pub open spec fn with_chat(self, chat: ChatView) -> ChatServiceView {
        ChatServiceView { chats: self.chats.insert(chat.id, chat), ..self }
    }

    /// The service after creating `chat` under the newly issued identifier
    /// `id`.
    pub open spec fn with_created(self, chat: ChatView, id: Seq<u8>) -> ChatServiceView {
        ChatServiceView { ids: self.ids.push(id), ..self.with_chat(chat) }
    }

    /// Every chat is named by the text of an identifier issued for it.
    pub open spec fn chats_named_by_ids(self) -> bool {
        forall|c: Seq<char>|
            #[trigger] self.chats.contains_key(c) ==> exists|m: int|
                0 <= m < self.ids.len() && #[trigger] hex_text(self.ids[m]) == c
    }

    /// The service with the members of chat `c` replaced by `members`.
    pub open spec fn with_members(self, c: Seq<char>, members: Set<Seq<char>>) -> ChatServiceView {
        ChatServiceView {
            chats: self.chats.insert(c, ChatView { members, ..self.chats[c] }),
            ..self
        }
    }

    /// User `u` joins chat `c`.
    pub open spec fn join(self, u: Seq<char>, c: Seq<char>) -> Result<
        ChatServiceView,
        ChatServiceError,
    > {
        if !self.chats.contains_key(c) {
            Err(ChatServiceError::ChatNotFound)
        } else {
            Ok(self.with_members(c, self.chats[c].members.insert(u)))
        }
    }

    /// User `u` leaves chat `c`.
    pub open spec fn disjoin(self, u: Seq<char>, c: Seq<char>) -> Result<
        ChatServiceView,
        ChatServiceError,
    > {
        if !self.chats.contains_key(c) {
            Err(ChatServiceError::ChatNotFound)
        } else {
            Ok(self.with_members(c, self.chats[c].members.remove(u)))
        }
    }

    /// User `u` connects device `d`.
    pub open spec fn add_device(self, u: Seq<char>, d: Seq<char>) -> ChatServiceView {
        ChatServiceView { devices: self.devices.insert(u, self.devices_of(u).insert(d)), ..self }
    }

    /// Device `d` of user `u` goes away.
    pub open spec fn remove_device(self, u: Seq<char>, d: Seq<char>) -> ChatServiceView {
        ChatServiceView { devices: self.devices.insert(u, self.devices_of(u).remove(d)), ..self }
    }

    /// Every device of every member of chat `c`.
    pub open spec fn recipients(self, c: Seq<char>) -> Set<Seq<char>> {
        Set::new(
            |d: Seq<char>|
                exists|u: Seq<char>|
                    #[trigger] self.chats[c].members.contains(u) && self.devices_of(u).contains(d),
        )
    }

    /// What becomes of a message that user `w` publishes in chat `c`: the
    /// devices it reaches, or why it is refused.
    pub open spec fn send_outcome(self, w: Seq<char>, c: Seq<char>) -> Result<
        Set<Seq<char>>,
        ChatServiceError,
    > {
        if !self.chats.contains_key(c) {
            Err(ChatServiceError::ChatNotFound)
        } else if !self.chats[c].members.contains(w) {
            Err(ChatServiceError::YouAreNotAPartecipant)
        } else {
            Ok(self.recipients(c))
        }
    }
}

/// Keeps track of the chats, of who is in which chat and of the devices of
/// each user.
pub struct ChatService {
    user_devices: Vec<UserDevices>,
    chat_id_generator: IdGenerator,
    chats: Vec<Chat>,
}

impl View for ChatService {
    type V = ChatServiceView;

    closed spec fn view(&self) -> ChatServiceView {
        ChatServiceView {
            chats: chats_map(self.chats@),
            devices: devices_map(self.user_devices@),
            ids: self.chat_id_generator.issued(),
        }
    }
}

proof fn lemma_chats_map_at(s: Seq<Chat>, i: int)
    requires
        chats_wf(s),
        0 <= i < s.len(),
    ensures
        chats_map(s).contains_key(s[i].id@),
        chats_map(s)[s[i].id@] == s[i]@,
{
    let k = s[i].id@;
    assert(chats_map(s).contains_key(k));
    let j = choose|j: int| 0 <= j < s.len() && #[trigger] s[j].id@ == k;
    assert(j == i);
}

proof fn lemma_chats_map_update(s: Seq<Chat>, i: int, c: Chat)
    requires
        chats_wf(s),
        0 <= i < s.len(),
        c.id@ == s[i].id@,
        c.wf(),
    ensures
        chats_wf(s.update(i, c)),
        chats_map(s.update(i, c)) == chats_map(s).insert(c.id@, c@),
{
    let t = s.update(i, c);
    assert forall|k: Seq<char>| #[trigger]
        chats_map(t).contains_key(k) implies chats_map(s).insert(c.id@, c@).contains_key(k) by {
        let j = choose|j: int| 0 <= j < t.len() && #[trigger] t[j].id@ == k;
        if j != i {
            assert(s[j].id@ == k);
        }
    }
    assert forall|k: Seq<char>| #[trigger]
        chats_map(s).insert(c.id@, c@).contains_key(k) implies chats_map(t).contains_key(k)
        && chats_map(t)[k] == chats_map(s).insert(c.id@, c@)[k] by {
        if k == c.id@ {
            assert(t[i].id@ == k);
            let j = choose|j: int| 0 <= j < t.len() && #[trigger] t[j].id@ == k;
            assert(j == i);
        } else {
            let j = choose|j: int| 0 <= j < s.len() && #[trigger] s[j].id@ == k;
            assert(t[j].id@ == k);
            lemma_chats_map_at(s, j);
            let j2 = choose|j2: int| 0 <= j2 < t.len() && #[trigger] t[j2].id@ == k;
            assert(j2 == j);
        }
    }
    assert(chats_map(t) =~= chats_map(s).insert(c.id@, c@));
}

proof fn lemma_chats_map_push(s: Seq<Chat>, c: Chat)
    requires
        chats_wf(s),
        !chats_map(s).contains_key(c.id@),
        c.wf(),
    ensures
        chats_wf(s.push(c)),
        chats_map(s.push(c)) == chats_map(s).insert(c.id@, c@),
{
    let t = s.push(c);
    assert forall|i: int, j: int|
        0 <= i < t.len() && 0 <= j < t.len() && i != j implies #[trigger] t[i].id@
        != #[trigger] t[j].id@ by {
        if i == s.len() {
            assert(s[j].id@ != c.id@);
        } else if j == s.len() {
            assert(s[i].id@ != c.id@);
        }
    }
    assert forall|k: Seq<char>| #[trigger]
        chats_map(t).contains_key(k) implies chats_map(s).insert(c.id@, c@).contains_key(k) by {
        let j = choose|j: int| 0 <= j < t.len() && #[trigger] t[j].id@ == k;
        if j < s.len() {
            assert(s[j].id@ == k);
        }
    }
    assert forall|k: Seq<char>| #[trigger]
        chats_map(s).insert(c.id@, c@).contains_key(k) implies chats_map(t).contains_key(k)
        && chats_map(t)[k] == chats_map(s).insert(c.id@, c@)[k] by {
        if k == c.id@ {
            assert(t[s.len() as int].id@ == k);
            lemma_chats_map_at(t, s.len() as int);
        } else {
            let j = choose|j: int| 0 <= j < s.len() && #[trigger] s[j].id@ == k;
            assert(t[j].id@ == k);
            lemma_chats_map_at(s, j);
            lemma_chats_map_at(t, j);
        }
    }
    assert(chats_map(t) =~= chats_map(s).insert(c.id@, c@));
}

proof fn lemma_devices_map_at(s: Seq<UserDevices>, i: int)
    requires
        devices_wf(s),
        0 <= i < s.len(),
    ensures
        devices_map(s).contains_key(s[i].user_id@),
        devices_map(s)[s[i].user_id@] == id_set(s[i].devices@),
{
    let k = s[i].user_id@;
    assert(devices_map(s).contains_key(k));
    let j = choose|j: int| 0 <= j < s.len() && #[trigger] s[j].user_id@ == k;
    assert(j == i);
}

proof fn lemma_devices_map_update(s: Seq<UserDevices>, i: int, e: UserDevices)
    requires
        devices_wf(s),
        0 <= i < s.len(),
        e.user_id@ == s[i].user_id@,
        distinct_ids(e.devices@),
    ensures
        devices_wf(s.update(i, e)),
        devices_map(s.update(i, e)) == devices_map(s).insert(e.user_id@, id_set(e.devices@)),
{
    let t = s.update(i, e);
    let m = devices_map(s).insert(e.user_id@, id_set(e.devices@));
    assert forall|k: Seq<char>| #[trigger] devices_map(t).contains_key(k) implies m.contains_key(
        k,
    ) by {
        let j = choose|j: int| 0 <= j < t.len() && #[trigger] t[j].user_id@ == k;
        if j != i {
            assert(s[j].user_id@ == k);
        }
    }
    assert forall|k: Seq<char>| #[trigger] m.contains_key(k) implies devices_map(t).contains_key(k)
        && devices_map(t)[k] == m[k] by {
        if k == e.user_id@ {
            assert(t[i].user_id@ == k);
            let j = choose|j: int| 0 <= j < t.len() && #[trigger] t[j].user_id@ == k;
            assert(j == i);
        } else {
            let j = choose|j: int| 0 <= j < s.len() && #[trigger] s[j].user_id@ == k;
            assert(t[j].user_id@ == k);
            lemma_devices_map_at(s, j);
            let j2 = choose|j2: int| 0 <= j2 < t.len() && #[trigger] t[j2].user_id@ == k;
            assert(j2 == j);
        }
    }
    assert(devices_map(t) =~= m);
}

proof fn lemma_devices_map_push(s: Seq<UserDevices>, e: UserDevices)
    requires
        devices_wf(s),
        !devices_map(s).contains_key(e.user_id@),
        distinct_ids(e.devices@),
    ensures
        devices_wf(s.push(e)),
        devices_map(s.push(e)) == devices_map(s).insert(e.user_id@, id_set(e.devices@)),
{
    let t = s.push(e);
    let m = devices_map(s).insert(e.user_id@, id_set(e.devices@));
    assert forall|i: int, j: int|
        0 <= i < t.len() && 0 <= j < t.len() && i != j implies #[trigger] t[i].user_id@
        != #[trigger] t[j].user_id@ by {
        if i == s.len() {
            assert(s[j].user_id@ != e.user_id@);
        } else if j == s.len() {
            assert(s[i].user_id@ != e.user_id@);
        }
    }
    assert forall|k: Seq<char>| #[trigger] devices_map(t).contains_key(k) implies m.contains_key(
        k,
    ) by {
        let j = choose|j: int| 0 <= j < t.len() && #[trigger] t[j].user_id@ == k;
        if j < s.len() {
            assert(s[j].user_id@ == k);
        }
    }
    assert forall|k: Seq<char>| #[trigger] m.contains_key(k) implies devices_map(t).contains_key(k)
        && devices_map(t)[k] == m[k] by {
        if k == e.user_id@ {
            assert(t[s.len() as int].user_id@ == k);
            lemma_devices_map_at(t, s.len() as int);
        } else {
            let j = choose|j: int| 0 <= j < s.len() && #[trigger] s[j].user_id@ == k;
            assert(t[j].user_id@ == k);
            lemma_devices_map_at(s, j);
            lemma_devices_map_at(t, j);
        }
    }
    assert(devices_map(t) =~= m);
}

/// The position of the chat with identifier `id` in `chats`.
fn chat_position(chats: &Vec<Chat>, id: &ChatId) -> (r: Option<usize>)
    requires
        chats_wf(chats@),
    ensures
        match r {
            Some(i) => i < chats@.len() && chats@[i as int].id@ == id@,
            None => !chats_map(chats@).contains_key(id@),
        },
{
    let mut i: usize = 0;
    while i < chats.len()
        invariant
            i <= chats@.len(),
            forall|j: int| 0 <= j < i ==> #[trigger] chats@[j].id@ != id@,
        decreases chats.len() - i,
    {
        if chats[i].id.same_as(id) {
            return Some(i);
        }
        i = i + 1;
    }
    None
}

/// The position of the entry of user `id` in `entries`.
fn user_position(entries: &Vec<UserDevices>, id: &UserId) -> (r: Option<usize>)
    requires
        devices_wf(entries@),
    ensures
        match r {
            Some(i) => i < entries@.len() && entries@[i as int].user_id@ == id@,
            None => !devices_map(entries@).contains_key(id@),
        },
{
    let mut i: usize = 0;
    while i < entries.len()
        invariant
            i <= entries@.len(),
            forall|j: int| 0 <= j < i ==> #[trigger] entries@[j].user_id@ != id@,
        decreases entries.len() - i,
    {
        if entries[i].user_id.same_as(id) {
            return Some(i);
        }
        i = i + 1;
    }
    None
}

/// Naming chats by issued identifiers survives any change that issues
/// nothing and creates no chat.
proof fn lemma_names_kept(before: ChatServiceView, after: ChatServiceView)
    requires
        before.chats_named_by_ids(),
        after.ids == before.ids,
        forall|c: Seq<char>| #[trigger] after.chats.contains_key(c) ==> before.chats.contains_key(c),
    ensures
        after.chats_named_by_ids(),
{
    assert forall|c: Seq<char>| #[trigger] after.chats.contains_key(c) implies exists|m: int|
        0 <= m < after.ids.len() && #[trigger] hex_text(after.ids[m]) == c by {
        assert(before.chats.contains_key(c));
    }
}

/// The devices of the users `users[0..n]`.
pub open spec fn devices_of_first(v: ChatServiceView, users: Seq<UserId>, n: int) -> Set<
    Seq<char>,
> {
    Set::new(
        |d: Seq<char>|
            exists|j: int| 0 <= j < n && #[trigger] v.devices_of(users[j]@).contains(d),
    )
}

impl ChatService {
    /// The service keeps no chat twice, no member of a chat twice, and no
    /// device of a user twice; its chats are named by identifiers it issued.
    pub closed spec fn wf(&self) -> bool {
        &&& chats_wf(self.chats@)
        &&& devices_wf(self.user_devices@)
        &&& self.chat_id_generator.wf()
        &&& self@.chats_named_by_ids()
    }

    /// A service with no chat and no device.
    pub fn new() -> (r: ChatService)
        ensures
            r.wf(),
            r@.chats == Map::<Seq<char>, ChatView>::empty(),
            r@.devices == Map::<Seq<char>, Set<Seq<char>>>::empty(),
            r@.ids == Seq::<Seq<u8>>::empty(),
    {
        let r = ChatService {
            user_devices: Vec::new(),
            chat_id_generator: IdGenerator::new(),
            chats: Vec::new(),
        };
        assert(r@.chats =~= Map::<Seq<char>, ChatView>::empty());
        assert(r@.devices =~= Map::<Seq<char>, Set<Seq<char>>>::empty());
        r
    }

    /// Every chat of the service, each once.
    pub fn list_chats(&self) -> (r: Chats)
        requires
            self.wf(),
        ensures
            chats_wf(r.0@),
            chats_map(r.0@) == self@.chats,
    {
        let mut out: Vec<Chat> = Vec::new();
        let mut i: usize = 0;
        while i < self.chats.len()
            invariant
                self.wf(),
                i <= self.chats@.len(),
                out@.len() == i,
                forall|j: int|
                    0 <= j < i ==> (#[trigger] out@[j])@ == self.chats@[j]@ && out@[j].id@
                        == self.chats@[j].id@ && out@[j].wf(),
            decreases self.chats.len() - i,
        {
            out.push(self.chats[i].duplicate());
            i = i + 1;
        }
        proof {
            assert(chats_map(out@) =~= chats_map(self.chats@)) by {
                assert forall|k: Seq<char>| #[trigger]
                    chats_map(self.chats@).contains_key(k) implies chats_map(out@).contains_key(k)
                    && chats_map(out@)[k] == chats_map(self.chats@)[k] by {
                    let j = choose|j: int|
                        0 <= j < self.chats@.len() && #[trigger] self.chats@[j].id@ == k;
                    assert(out@[j].id@ == k);
                    lemma_chats_map_at(self.chats@, j);
                    lemma_chats_map_at(out@, j);
                }
                assert forall|k: Seq<char>| #[trigger]
                    chats_map(out@).contains_key(k) implies chats_map(
                    self.chats@,
                ).contains_key(k) by {
                    let j = choose|j: int| 0 <= j < out@.len() && #[trigger] out@[j].id@ == k;
                    assert(self.chats@[j].id@ == k);
                }
            }
        }
        Chats(out)
    }

    /// Creates a chat named `name`, created by `creator`, with no member;
    /// its identifier is freshly generated: the hexadecimal rendering of the
    /// next `hyperid` identifier. That identifier differs from the last 255
    /// issued before it, so the new chat replaces an existing one only when
    /// it is named like a chat created at least 256 creations earlier.
    pub fn create_chat(&mut self, creator: UserId, name: String) -> (chat: Chat)
        requires
            old(self).wf(),
        ensures
            final(self).wf(),
            chat.wf(),
            chat@.id == chat.id@,
            chat@.creator == creator@,
            chat@.name == name@,
            chat@.members == Set::<Seq<char>>::empty(),
            final(self)@ == old(self)@.with_created(chat@, final(self)@.ids.last()),
            final(self)@.devices == old(self)@.devices,
            counter_chain(final(self)@.ids),
            chat.id@ == hex_text(final(self)@.ids.last()),
            chat.id@.len() == 34,
            forall|k: int|
                0 <= k < old(self)@.ids.len() && old(self)@.ids.len() - k < 256
                    ==> #[trigger] hex_text(old(self)@.ids[k]) != chat.id@,
            old(self)@.chats.contains_key(chat.id@) ==> exists|k: int|
                0 <= k < old(self)@.ids.len() - 255 && #[trigger] hex_text(old(self)@.ids[k])
                    == chat.id@,
    {
        let ghost before = self@;
        let id = ChatId(fresh_id(&mut self.chat_id_generator));
        let chat = Chat { id, creator, name, user_ids: Vec::new() };
        assert(id_set(chat.user_ids@) =~= Set::<Seq<char>>::empty());
        let stored = chat.duplicate();
        match chat_position(&self.chats, &chat.id) {
            Some(i) => {
                proof {
                    lemma_chats_map_update(self.chats@, i as int, stored);
                }
                self.chats.set(i, stored);
            },
            None => {
                proof {
                    lemma_chats_map_push(self.chats@, stored);
                }
                self.chats.push(stored);
            },
        }
        proof {
            let after = self@;
            assert(after.ids.drop_last() == before.ids);
            assert(after.chats =~= before.with_created(chat@, after.ids.last()).chats);
            assert(after.ids =~= before.with_created(chat@, after.ids.last()).ids);
            assert forall|c: Seq<char>| #[trigger] after.chats.contains_key(c) implies exists|m: int|
                0 <= m < after.ids.len() && #[trigger] hex_text(after.ids[m]) == c by {
                if c == chat.id@ {
                    assert(hex_text(after.ids[after.ids.len() - 1]) == c);
                } else {
                    assert(before.chats.contains_key(c));
                    let m = choose|m: int|
                        0 <= m < before.ids.len() && #[trigger] hex_text(before.ids[m]) == c;
                    assert(after.ids[m] == before.ids[m]);
                    assert(hex_text(after.ids[m]) == c);
                }
            }
            if before.chats.contains_key(chat.id@) {
                let m = choose|m: int|
                    0 <= m < before.ids.len() && #[trigger] hex_text(before.ids[m]) == chat.id@;
                assert(!(before.ids.len() - m < 256));
            }
        }
        chat
    }

    /// Connects device `context.device_id` of user `context.user_id`; the
    /// returned event asks the pool of websockets to start serving it.
    pub fn add_device(&mut self, context: WsContext) -> (r: Item)
        requires
            old(self).wf(),
        ensures
            final(self).wf(),
            final(self)@ == old(self)@.add_device(context.user_id@, context.device_id@),
            r matches Item::AddDevice(c) && c@ == context@,
    {
        let ghost u = context.user_id@;
        let ghost d = context.device_id@;
        match user_position(&self.user_devices, &context.user_id) {
            Some(i) => {
                let mut entry = self.user_devices.remove(i);
                insert_id(&mut entry.devices, context.device_id.duplicate());
                proof {
                    let s = old(self).user_devices@;
                    lemma_devices_map_at(s, i as int);
                    lemma_devices_map_update(s, i as int, entry);
                    assert(self.user_devices@.insert(i as int, entry) =~= s.update(
                        i as int,
                        entry,
                    ));
                }
                self.user_devices.insert(i, entry);
            },
            None => {
                let mut devices: Vec<DeviceId> = Vec::new();
                devices.push(context.device_id.duplicate());
                let entry = UserDevices { user_id: context.user_id.duplicate(), devices };
                proof {
                    assert(id_set(entry.devices@) =~= Set::<Seq<char>>::empty().insert(d)) by {
                        assert(entry.devices@[0]@ == d);
                    }
                    lemma_devices_map_push(self.user_devices@, entry);
                }
                self.user_devices.push(entry);
            },
        }
        proof {
            assert(self@.devices =~= old(self)@.add_device(u, d).devices);
            lemma_names_kept(old(self)@, self@);
        }
        Item::AddDevice(context)
    }

    /// User `user_id` joins the chat of `add_to_chat`.
    pub fn join_chat(&mut self, user_id: UserId, add_to_chat: AddToChat) -> (r: Result<
        (),
        ChatServiceError,
    >)
        requires
            old(self).wf(),
        ensures
            final(self).wf(),
            match old(self)@.join(user_id@, add_to_chat.chat_id@) {
                Ok(v) => r is Ok && final(self)@ == v,
                Err(e) => r == Err::<(), ChatServiceError>(e) && final(self)@ == old(self)@,
            },
    {
        match chat_position(&self.chats, &add_to_chat.chat_id) {
            None => Err(ChatServiceError::ChatNotFound),
            Some(i) => {
                let ghost u = user_id@;
                assert(self.chats@[i as int].wf());
                let mut chat = self.chats.remove(i);
                insert_id(&mut chat.user_ids, user_id);
                proof {
                    let s = old(self).chats@;
                    lemma_chats_map_at(s, i as int);
                    lemma_chats_map_update(s, i as int, chat);
                    assert(self.chats@.insert(i as int, chat) =~= s.update(i as int, chat));
                }
                self.chats.insert(i, chat);
                proof {
                    assert(self@.chats =~= old(self)@.join(u, add_to_chat.chat_id@)->Ok_0.chats);
                    lemma_names_kept(old(self)@, self@);
                }
                Ok(())
            },
        }
    }

    /// User `user_id` leaves the chat of `remove_from_chat`.
    pub fn disjoin_chat(&mut self, user_id: UserId, remove_from_chat: RemoveFromChat) -> (r: Result<
        (),
        ChatServiceError,
    >)
        requires
            old(self).wf(),
        ensures
            final(self).wf(),
            match old(self)@.disjoin(user_id@, remove_from_chat.chat_id@) {
                Ok(v) => r is Ok && final(self)@ == v,
                Err(e) => r == Err::<(), ChatServiceError>(e) && final(self)@ == old(self)@,
            },
    {
        match chat_position(&self.chats, &remove_from_chat.chat_id) {
            None => Err(ChatServiceError::ChatNotFound),
            Some(i) => {
                let ghost u = user_id@;
                assert(self.chats@[i as int].wf());
                let mut chat = self.chats.remove(i);
                remove_id(&mut chat.user_ids, &user_id);
                proof {
                    let s = old(self).chats@;
                    lemma_chats_map_at(s, i as int);
                    lemma_chats_map_update(s, i as int, chat);
                    assert(self.chats@.insert(i as int, chat) =~= s.update(i as int, chat));
                }
                self.chats.insert(i, chat);
                proof {
                    assert(self@.chats =~= old(self)@.disjoin(
                        u,
                        remove_from_chat.chat_id@,
                    )->Ok_0.chats);
                    lemma_names_kept(old(self)@, self@);
                }
                Ok(())
            },
        }
    }

    /// Forgets device `context.device_id` of user `context.user_id`.
    pub fn remove_device(&mut self, context: &WsContext) -> (r: Result<(), ChatServiceError>)
        requires
            old(self).wf(),
        ensures
            final(self).wf(),
            r is Ok,
            final(self)@ == old(self)@.remove_device(context.user_id@, context.device_id@),
    {
        let ghost u = context.user_id@;
        let ghost d = context.device_id@;
        match user_position(&self.user_devices, &context.user_id) {
            Some(i) => {
                let mut entry = self.user_devices.remove(i);
                remove_id(&mut entry.devices, &context.device_id);
                proof {
                    let s = old(self).user_devices@;
                    lemma_devices_map_at(s, i as int);
                    lemma_devices_map_update(s, i as int, entry);
                    assert(self.user_devices@.insert(i as int, entry) =~= s.update(
                        i as int,
                        entry,
                    ));
                }
                self.user_devices.insert(i, entry);
            },
            None => {
                let entry = UserDevices {
                    user_id: context.user_id.duplicate(),
                    devices: Vec::new(),
                };
                proof {
                    assert(id_set(entry.devices@) =~= Set::<Seq<char>>::empty().remove(d));
                    lemma_devices_map_push(self.user_devices@, entry);
                }
                self.user_devices.push(entry);
            },
        }
        proof {
            assert(self@.devices =~= old(self)@.remove_device(u, d).devices);
            lemma_names_kept(old(self)@, self@);
        }
        Ok(())
    }

    /// Publishes a message of `context.user_id` in the chat of `smic`: the
    /// returned event delivers it to every device of every member.
    pub fn send_message(&self, context: &WsContext, smic: SendMessageInChat) -> (r: Result<
        Item,
        ChatServiceError,
    >)
        requires
            self.wf(),
        ensures
            match self@.send_outcome(context.user_id@, smic.chat_id@) {
                Ok(devices) => r matches Ok(Item::PublishMessage(ds, msg)) && id_set(ds@)
                    == devices && distinct_ids(ds@) && msg.writer@ == context.user_id@
                    && msg.chat_id@ == smic.chat_id@ && msg.text@ == smic.text@,
                Err(e) => r == Err::<Item, ChatServiceError>(e),
            },
    {
        let i = match chat_position(&self.chats, &smic.chat_id) {
            None => return Err(ChatServiceError::ChatNotFound),
            Some(i) => i,
        };
        let chat = &self.chats[i];
        proof {
            lemma_chats_map_at(self.chats@, i as int);
        }
        let users = &chat.user_ids;
        if !contains_id(users, &context.user_id) {
            return Err(ChatServiceError::YouAreNotAPartecipant);
        }
        let ghost v = self@;
        let mut devices: Vec<DeviceId> = Vec::new();
        let mut j: usize = 0;
        while j < users.len()
            invariant
                self.wf(),
                v == self@,
                j <= users@.len(),
                distinct_ids(devices@),
                id_set(devices@) == devices_of_first(v, users@, j as int),
            decreases users.len() - j,
        {
            let ghost before = id_set(devices@);
            match user_position(&self.user_devices, &users[j]) {
                Some(p) => {
                    let ds = &self.user_devices[p].devices;
                    proof {
                        lemma_devices_map_at(self.user_devices@, p as int);
                    }
                    let mut k: usize = 0;
                    while k < ds.len()
                        invariant
                            k <= ds@.len(),
                            distinct_ids(devices@),
                            id_set(devices@) == before + id_set(ds@.take(k as int)),
                        decreases ds.len() - k,
                    {
                        let ghost prev = id_set(devices@);
                        insert_id(&mut devices, ds[k as usize].duplicate());
                        proof {
                            assert(id_set(ds@.take(k + 1)) =~= id_set(ds@.take(k as int)).insert(
                                ds@[k as int]@,
                            )) by {
                                assert forall|x: Seq<char>| #[trigger]
                                    id_set(ds@.take(k + 1)).contains(x) implies id_set(
                                    ds@.take(k as int),
                                ).insert(ds@[k as int]@).contains(x) by {
                                    let a = choose|a: int|
                                        0 <= a < k + 1 && #[trigger] ds@.take(k + 1)[a]@ == x;
                                    if a < k {
                                        assert(ds@.take(k as int)[a]@ == x);
                                    }
                                }
                                assert forall|x: Seq<char>| #[trigger]
                                    id_set(ds@.take(k as int)).contains(x) implies id_set(
                                    ds@.take(k + 1),
                                ).contains(x) by {
                                    let a = choose|a: int|
                                        0 <= a < k && #[trigger] ds@.take(k as int)[a]@ == x;
                                    assert(ds@.take(k + 1)[a]@ == x);
                                }
                                assert(ds@.take(k + 1)[k as int]@ == ds@[k as int]@);
                            }
                            assert(id_set(devices@) =~= before + id_set(ds@.take(k + 1)));
                        }
                        k = k + 1;
                    }
                    proof {
                        assert(ds@.take(ds@.len() as int) =~= ds@);
                        assert(v.devices_of(users@[j as int]@) == id_set(ds@));
                    }
                },
                None => {
                    proof {
                        assert(v.devices_of(users@[j as int]@) == Set::<Seq<char>>::empty());
                    }
                },
            }
            proof {
                let u = users@[j as int]@;
                assert(devices_of_first(v, users@, j + 1) =~= devices_of_first(
                    v,
                    users@,
                    j as int,
                ) + v.devices_of(u)) by {
                    assert forall|d: Seq<char>| #[trigger]
                        devices_of_first(v, users@, j + 1).contains(d) implies (devices_of_first(
                        v,
                        users@,
                        j as int,
                    ) + v.devices_of(u)).contains(d) by {
                        let a = choose|a: int|
                            0 <= a < j + 1 && #[trigger] v.devices_of(users@[a]@).contains(d);
                        if a < j {
                            assert(devices_of_first(v, users@, j as int).contains(d));
                        }
                    }
                    assert forall|d: Seq<char>| #[trigger]
                        devices_of_first(v, users@, j as int).contains(d) implies devices_of_first(
                        v,
                        users@,
                        j + 1,
                    ).contains(d) by {
                        let a = choose|a: int|
                            0 <= a < j && #[trigger] v.devices_of(users@[a]@).contains(d);
                        assert(v.devices_of(users@[a]@).contains(d));
                    }
                    assert forall|d: Seq<char>| #[trigger]
                        v.devices_of(u).contains(d) implies devices_of_first(
                        v,
                        users@,
                        j + 1,
                    ).contains(d) by {
                        assert(v.devices_of(users@[j as int]@).contains(d));
                    }
                }
                assert(id_set(devices@) =~= devices_of_first(v, users@, j + 1));
            }
            j = j + 1;
        }
        proof {
            let c = smic.chat_id@;
            assert(v.chats[c].members == id_set(users@));
            assert(devices_of_first(v, users@, users@.len() as int) =~= v.recipients(c)) by {
                assert forall|d: Seq<char>| #[trigger]
                    v.recipients(c).contains(d) implies devices_of_first(
                    v,
                    users@,
                    users@.len() as int,
                ).contains(d) by {
                    let u = choose|u: Seq<char>|
                        #[trigger] v.chats[c].members.contains(u) && v.devices_of(u).contains(d);
                    let a = choose|a: int| 0 <= a < users@.len() && #[trigger] users@[a]@ == u;
                    assert(v.devices_of(users@[a]@).contains(d));
                }
                assert forall|d: Seq<char>| #[trigger]
                    devices_of_first(v, users@, users@.len() as int).contains(d)
                        implies v.recipients(c).contains(d) by {
                    let a = choose|a: int|
                        0 <= a < users@.len() && #[trigger] v.devices_of(users@[a]@).contains(d);
                    assert(id_set(users@).contains(users@[a]@));
                    assert(v.chats[c].members.contains(users@[a]@));
                }
            }
        }
        let msg = PublishedMessage {
            writer: context.user_id.duplicate(),
            chat_id: smic.chat_id,
            text: smic.text,
        };
        Ok(Item::PublishMessage(devices, msg))
    }
}


/// A user who joins an existing chat may publish in it.
pub proof fn law_join_allows_sending(v: ChatServiceView, u: Seq<char>, c: Seq<char>)
    requires
        v.chats.contains_key(c),
    ensures
        v.join(u, c) is Ok,
        v.join(u, c)->Ok_0.send_outcome(u, c) is Ok,
{
}

/// A user who leaves a chat may no longer publish in it.
pub proof fn law_disjoin_forbids_sending(v: ChatServiceView, u: Seq<char>, c: Seq<char>)
    requires
        v.chats.contains_key(c),
    ensures
        v.disjoin(u, c) is Ok,
        v.disjoin(u, c)->Ok_0.send_outcome(u, c) == Err::<Set<Seq<char>>, ChatServiceError>(
            ChatServiceError::YouAreNotAPartecipant,
        ),
{
}

/// A message published in a chat that does not exist is refused as such,
/// whoever publishes it.
pub proof fn law_unknown_chat_refused(v: ChatServiceView, w: Seq<char>, c: Seq<char>)
    requires
        !v.chats.contains_key(c),
    ensures
        v.send_outcome(w, c) == Err::<Set<Seq<char>>, ChatServiceError>(
            ChatServiceError::ChatNotFound,
        ),
        v.join(w, c) == Err::<ChatServiceView, ChatServiceError>(ChatServiceError::ChatNotFound),
        v.disjoin(w, c) == Err::<ChatServiceView, ChatServiceError>(
            ChatServiceError::ChatNotFound,
        ),
{
}

/// A published message reaches every device of every member of the chat.
pub proof fn law_every_member_device_reached(
    v: ChatServiceView,
    w: Seq<char>,
    c: Seq<char>,
    u: Seq<char>,
    d: Seq<char>,
)
    requires
        v.send_outcome(w, c) is Ok,
        v.chats[c].members.contains(u),
        v.devices_of(u).contains(d),
    ensures
        v.send_outcome(w, c)->Ok_0.contains(d),
{
}

/// A published message reaches no device but those of the chat's members.
pub proof fn law_only_member_devices_reached(
    v: ChatServiceView,
    w: Seq<char>,
    c: Seq<char>,
    d: Seq<char>,
)
    requires
        v.send_outcome(w, c) is Ok,
        v.send_outcome(w, c)->Ok_0.contains(d),
    ensures
        exists|u: Seq<char>| #[trigger]
            v.chats[c].members.contains(u) && v.devices_of(u).contains(d),
{
}

/// Once user `u` has joined chat `c` and connected device `d`, every
/// message published in `c` by a member reaches `d`.
pub proof fn law_joined_device_receives(
    v: ChatServiceView,
    u: Seq<char>,
    d: Seq<char>,
    c: Seq<char>,
    w: Seq<char>,
)
    requires
        v.chats.contains_key(c),
        w == u || v.chats[c].members.contains(w),
    ensures
        v.join(u, c)->Ok_0.add_device(u, d).send_outcome(w, c) is Ok,
        v.join(u, c)->Ok_0.add_device(u, d).send_outcome(w, c)->Ok_0.contains(d),
{
    let v2 = v.join(u, c)->Ok_0.add_device(u, d);
    assert(v2.chats[c].members.contains(u));
    assert(v2.devices_of(u).contains(d));
}

/// Once user `u` has left chat `c`, a device that only `u` holds is no
/// longer reached by messages published in `c`.
pub proof fn law_left_user_not_reached(
    v: ChatServiceView,
    u: Seq<char>,
    d: Seq<char>,
    c: Seq<char>,
    w: Seq<char>,
)
    requires
        v.chats.contains_key(c),
        forall|x: Seq<char>| x != u ==> !(#[trigger] v.devices_of(x)).contains(d),
    ensures
        v.disjoin(u, c)->Ok_0.send_outcome(w, c) is Ok ==> !v.disjoin(u, c)->Ok_0.send_outcome(
            w,
            c,
        )->Ok_0.contains(d),
{
    let v2 = v.disjoin(u, c)->Ok_0;
    if v2.send_outcome(w, c) is Ok && v2.send_outcome(w, c)->Ok_0.contains(d) {
        let x = choose|x: Seq<char>|
            #[trigger] v2.chats[c].members.contains(x) && v2.devices_of(x).contains(d);
        assert(x != u);
        assert(v.devices_of(x) == v2.devices_of(x));
    }
}

/// Once device `d` of user `u` goes away, no message reaches it any more
/// unless another user holds a device of the same identifier.
pub proof fn law_removed_device_not_reached(
    v: ChatServiceView,
    u: Seq<char>,
    d: Seq<char>,
    c: Seq<char>,
    w: Seq<char>,
)
    requires
        forall|x: Seq<char>| x != u ==> !(#[trigger] v.devices_of(x)).contains(d),
    ensures
        v.remove_device(u, d).send_outcome(w, c) is Ok ==> !v.remove_device(u, d).send_outcome(
            w,
            c,
        )->Ok_0.contains(d),
{
    let v2 = v.remove_device(u, d);
    if v2.send_outcome(w, c) is Ok && v2.send_outcome(w, c)->Ok_0.contains(d) {
        let x = choose|x: Seq<char>|
            #[trigger] v2.chats[c].members.contains(x) && v2.devices_of(x).contains(d);
        if x != u {
            assert(v.devices_of(x) == v2.devices_of(x));
        }
    }
}

/// Joining a chat twice is joining it once.
pub proof fn law_join_idempotent(v: ChatServiceView, u: Seq<char>, c: Seq<char>)
    requires
        v.chats.contains_key(c),
    ensures
        v.join(u, c)->Ok_0.join(u, c) == v.join(u, c),
{
    let v1 = v.join(u, c)->Ok_0;
    assert(v1.chats[c].members.insert(u) =~= v1.chats[c].members);
    assert(v1.join(u, c)->Ok_0.chats =~= v1.chats);
}

/// Leaving a chat undoes joining it, for a user who was not a member.
pub proof fn law_disjoin_undoes_join(v: ChatServiceView, u: Seq<char>, c: Seq<char>)
    requires
        v.chats.contains_key(c),
        !v.chats[c].members.contains(u),
    ensures
        v.join(u, c)->Ok_0.disjoin(u, c) == Ok::<ChatServiceView, ChatServiceError>(v),
{
    let v2 = v.join(u, c)->Ok_0.disjoin(u, c)->Ok_0;
    assert(v2.chats[c].members =~= v.chats[c].members);
    assert(v2.chats =~= v.chats);
}

/// Removing a device undoes adding it, for every user's set of devices.
pub proof fn law_remove_device_undoes_add(
    v: ChatServiceView,
    u: Seq<char>,
    d: Seq<char>,
    x: Seq<char>,
)
    requires
        !v.devices_of(u).contains(d),
    ensures
        v.add_device(u, d).remove_device(u, d).devices_of(x) == v.devices_of(x),
        v.add_device(u, d).remove_device(u, d).chats == v.chats,
{
    if x == u {
        assert(v.devices_of(u).insert(d).remove(d) =~= v.devices_of(u));
    }
}

/// A freshly created chat has no member, so nobody, not even its creator,
/// may publish in it before joining it.
pub proof fn law_new_chat_has_no_speakers(v: ChatServiceView, chat: ChatView, w: Seq<char>)
    requires
        chat.members == Set::<Seq<char>>::empty(),
    ensures
        v.with_chat(chat).send_outcome(w, chat.id) == Err::<Set<Seq<char>>, ChatServiceError>(
            ChatServiceError::YouAreNotAPartecipant,
        ),
{
}

/// Connecting and disconnecting devices leaves the chats as they are, and
/// joining or leaving chats leaves the devices as they are.
pub proof fn law_devices_and_memberships_independent(
    v: ChatServiceView,
    u: Seq<char>,
    d: Seq<char>,
    c: Seq<char>,
)
    requires
        v.chats.contains_key(c),
    ensures
        v.add_device(u, d).chats == v.chats,
        v.remove_device(u, d).chats == v.chats,
        v.join(u, c)->Ok_0.devices == v.devices,
        v.disjoin(u, c)->Ok_0.devices == v.devices,
{
}


/// A created chat is listed under its identifier, exactly as it was
/// created, and every other chat stays as it was.
pub proof fn law_created_chat_is_listed(v: ChatServiceView, chat: ChatView, other: Seq<char>)
    ensures
        v.with_chat(chat).chats.contains_key(chat.id),
        v.with_chat(chat).chats[chat.id] == chat,
        other != chat.id ==> v.with_chat(chat).chats.contains_key(other) == v.chats.contains_key(
            other,
        ),
        other != chat.id && v.chats.contains_key(other) ==> v.with_chat(chat).chats[other]
            == v.chats[other],
{
}

/// Two chats created one after the other get different identifiers, so
/// the second does not replace the first: both are listed afterwards, each
/// as it was created.
pub proof fn law_consecutive_chats_both_kept(
    v: ChatServiceView,
    first: ChatView,
    first_id: Seq<u8>,
    second: ChatView,
    second_id: Seq<u8>,
)
    requires
        counter_chain(v.ids.push(first_id).push(second_id)),
        first.id == hex_text(first_id),
        second.id == hex_text(second_id),
    ensures
        first.id != second.id,
        v.with_created(first, first_id).with_created(second, second_id).chats.contains_key(
            first.id,
        ),
        v.with_created(first, first_id).with_created(second, second_id).chats[first.id] == first,
        v.with_created(first, first_id).with_created(second, second_id).chats[second.id]
            == second,
{
    let ids = v.ids.push(first_id).push(second_id);
    assert(ids[v.ids.len() as int] == first_id);
    assert(ids[v.ids.len() + 1int] == second_id);
    law_recent_ids_distinct(ids, v.ids.len() as int, v.ids.len() + 1int);
}

/// Creating a chat touches only the chats and the record of issued
/// identifiers: every user keeps exactly the devices it had, and every other
/// chat stays as it was.
pub proof fn law_create_keeps_devices(v: ChatServiceView, chat: ChatView, id: Seq<u8>, x: Seq<char>)
    ensures
        v.with_created(chat, id).devices == v.devices,
        v.with_created(chat, id).devices_of(x) == v.devices_of(x),
        v.with_created(chat, id).ids == v.ids.push(id),
        x != chat.id ==> v.with_created(chat, id).chats.contains_key(x) == v.chats.contains_key(x),
        x != chat.id && v.chats.contains_key(x) ==> v.with_created(chat, id).chats[x]
            == v.chats[x],
{
}

/// Joining an existing chat adds exactly the joining user to its members:
/// every other user is a member afterwards exactly when before; the chat
/// keeps its identifier, creator and name; every other chat, the devices
/// and the issued identifiers stay as they were.
pub proof fn law_join_adds_exactly_the_user(
    v: ChatServiceView,
    u: Seq<char>,
    c: Seq<char>,
    x: Seq<char>,
    other: Seq<char>,
)
    requires
        v.chats.contains_key(c),
    ensures
        v.join(u, c) is Ok,
        v.join(u, c)->Ok_0.chats[c].members.contains(u),
        x != u ==> v.join(u, c)->Ok_0.chats[c].members.contains(x) == v.chats[c].members.contains(
            x,
        ),
        v.join(u, c)->Ok_0.chats[c].id == v.chats[c].id,
        v.join(u, c)->Ok_0.chats[c].creator == v.chats[c].creator,
        v.join(u, c)->Ok_0.chats[c].name == v.chats[c].name,
        v.join(u, c)->Ok_0.chats.dom() == v.chats.dom(),
        other != c && v.chats.contains_key(other) ==> v.join(u, c)->Ok_0.chats[other]
            == v.chats[other],
        v.join(u, c)->Ok_0.devices == v.devices,
        v.join(u, c)->Ok_0.ids == v.ids,
        v.chats[c].members.contains(u) ==> v.join(u, c)->Ok_0 == v,
{
    let w = v.join(u, c)->Ok_0;
    assert(w.chats.dom() =~= v.chats.dom());
    if v.chats[c].members.contains(u) {
        assert(v.chats[c].members.insert(u) =~= v.chats[c].members);
        assert(w.chats =~= v.chats);
    }
}

/// Leaving an existing chat removes exactly the leaving user from its
/// members, whether or not the user was one: every other user is a member
/// afterwards exactly when before; the chat keeps its identifier, creator
/// and name; every other chat, the devices and the issued identifiers stay
/// as they were. Leaving a chat one is not in changes nothing.
pub proof fn law_disjoin_removes_exactly_the_user(
    v: ChatServiceView,
    u: Seq<char>,
    c: Seq<char>,
    x: Seq<char>,
    other: Seq<char>,
)
    requires
        v.chats.contains_key(c),
    ensures
        v.disjoin(u, c) is Ok,
        !v.disjoin(u, c)->Ok_0.chats[c].members.contains(u),
        x != u ==> v.disjoin(u, c)->Ok_0.chats[c].members.contains(x)
            == v.chats[c].members.contains(x),
        v.disjoin(u, c)->Ok_0.chats[c].id == v.chats[c].id,
        v.disjoin(u, c)->Ok_0.chats[c].creator == v.chats[c].creator,
        v.disjoin(u, c)->Ok_0.chats[c].name == v.chats[c].name,
        v.disjoin(u, c)->Ok_0.chats.dom() == v.chats.dom(),
        other != c && v.chats.contains_key(other) ==> v.disjoin(u, c)->Ok_0.chats[other]
            == v.chats[other],
        v.disjoin(u, c)->Ok_0.devices == v.devices,
        v.disjoin(u, c)->Ok_0.ids == v.ids,
        !v.chats[c].members.contains(u) ==> v.disjoin(u, c)->Ok_0 == v,
{
    let w = v.disjoin(u, c)->Ok_0;
    assert(w.chats.dom() =~= v.chats.dom());
    if !v.chats[c].members.contains(u) {
        assert(v.chats[c].members.remove(u) =~= v.chats[c].members);
        assert(w.chats =~= v.chats);
    }
}

/// Connecting a device touches only the devices of its user, who gains
/// exactly that device: every other user keeps exactly its devices, and the
/// chats and issued identifiers stay as they were.
pub proof fn law_add_device_touches_only_its_user(
    v: ChatServiceView,
    u: Seq<char>,
    d: Seq<char>,
    x: Seq<char>,
    e: Seq<char>,
)
    ensures
        v.add_device(u, d).devices_of(u).contains(d),
        e != d ==> v.add_device(u, d).devices_of(u).contains(e) == v.devices_of(u).contains(e),
        x != u ==> v.add_device(u, d).devices_of(x) == v.devices_of(x),
        v.add_device(u, d).chats == v.chats,
        v.add_device(u, d).ids == v.ids,
{
}

/// Disconnecting a device touches only the devices of its user, who loses
/// exactly that device, whether or not it had it: every other user keeps
/// exactly its devices, and the chats and issued identifiers stay as they
/// were.
pub proof fn law_remove_device_touches_only_its_user(
    v: ChatServiceView,
    u: Seq<char>,
    d: Seq<char>,
    x: Seq<char>,
    e: Seq<char>,
)
    ensures
        !v.remove_device(u, d).devices_of(u).contains(d),
        e != d ==> v.remove_device(u, d).devices_of(u).contains(e) == v.devices_of(u).contains(e),
        x != u ==> v.remove_device(u, d).devices_of(x) == v.devices_of(x),
        v.remove_device(u, d).chats == v.chats,
        v.remove_device(u, d).ids == v.ids,
{
}

} // verus!
