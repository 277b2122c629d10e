//! The in-memory connection registry: the room map with one broadcast
//! channel per room, the per-user direct endpoints, and non-blocking
//! fan-out. A ghost log records every frame published per room, so that the
//! durable-before-visible coupling can be stated against the store.

use vstd::prelude::*;

use tokio::sync::broadcast::Receiver;
use tokio::sync::broadcast::Sender;

use crate::errors::ApiError;
use crate::ext::clone_sender;
use crate::ext::frame_channel;
use crate::ext::frame_send;
use crate::ext::frame_subscribe;
use crate::wire::UserStatus;
use crate::wire::WebSocketMessage;

verus! {

/// Bounded capacity of every room broadcast and direct channel.
pub const CHANNEL_CAPACITY: usize = 100;

/// A member's live session inside one room.
pub struct UserConnection {
    pub user_id: u128,
    pub sender: Sender<WebSocketMessage>,
    pub status: UserStatus,
    pub last_activity: u64,
}

/// A live room: its members and its broadcast channel.
pub struct ChatRoom {
    pub chat_id: u128,
    pub users: Vec<UserConnection>,
    pub channel: Sender<WebSocketMessage>,
}

/// A user's direct endpoint, for out-of-room pushes.
pub struct OnlineUser {
    pub id: u128,
    pub username: String,
    pub sender: Sender<WebSocketMessage>,
}

/// What a member's session says, channel aside.
pub struct MemberModel {
    pub user_id: u128,
    pub status: UserStatus,
    pub last_activity: u64,
}

/// What a room says, channel aside.
#[verifier::ext_equal]
pub struct RoomModel {
    pub chat_id: u128,
    pub members: Seq<MemberModel>,
}

/// What a direct endpoint says, channel aside.
pub struct OnlineModel {
    pub id: u128,
    pub username: Seq<char>,
}

/// The model of one member session.
pub open spec fn member_model(c: UserConnection) -> MemberModel {
    MemberModel { user_id: c.user_id, status: c.status, last_activity: c.last_activity }
}

/// The model of one room.
pub open spec fn room_model(r: ChatRoom) -> RoomModel {
    RoomModel { chat_id: r.chat_id, members: r.users@.map_values(|c: UserConnection| member_model(c)) }
}

/// The model of one direct endpoint.
pub open spec fn online_model(u: OnlineUser) -> OnlineModel {
    OnlineModel { id: u.id, username: u.username@ }
}

/// Whether a room for `chat_id` is live.
pub open spec fn room_listed(rooms: Seq<RoomModel>, chat_id: u128) -> bool {
    exists|i: int| 0 <= i < rooms.len() && rooms[i].chat_id == chat_id
}

/// Whether `user_id` holds a member session inside the live room `chat_id`.
pub open spec fn room_member(rooms: Seq<RoomModel>, chat_id: u128, user_id: u128) -> bool {
    exists|i: int, j: int|
        0 <= i < rooms.len() && rooms[i].chat_id == chat_id && 0 <= j < rooms[i].members.len()
            && rooms[i].members[j].user_id == user_id
}

/// Whether `user_id` holds a direct endpoint.
pub open spec fn user_online(conns: Seq<OnlineModel>, user_id: u128) -> bool {
    exists|i: int| 0 <= i < conns.len() && conns[i].id == user_id
}

/// Replaces the member session for `m.user_id`, or adds one.
pub open spec fn upsert_member(members: Seq<MemberModel>, m: MemberModel) -> Seq<MemberModel> {
    if exists|j: int| 0 <= j < members.len() && members[j].user_id == m.user_id {
        members.map_values(|x: MemberModel| if x.user_id == m.user_id { m } else { x })
    } else {
        members.push(m)
    }
}

/// A room with every session of `user_id` dropped.
pub open spec fn drop_member(room: RoomModel, user_id: u128) -> RoomModel {
    RoomModel {
        chat_id: room.chat_id,
        members: room.members.filter(|m: MemberModel| m.user_id != user_id),
    }
}

/// Every room with `user_id` dropped; rooms left empty disappear.
pub open spec fn sweep_rooms(rooms: Seq<RoomModel>, user_id: u128) -> Seq<RoomModel> {
    rooms.map_values(|r: RoomModel| drop_member(r, user_id)).filter(
        |r: RoomModel| r.members.len() > 0,
    )
}

/// Filtering for other users keeps a member list without the user intact.
proof fn lemma_member_filter_no_match(s: Seq<MemberModel>, user_id: u128)
    requires
        forall|k: int| 0 <= k < s.len() ==> s[k].user_id != user_id,
    ensures
        s.filter(|m: MemberModel| m.user_id != user_id) =~= s,
    decreases s.len(),
{
    reveal_with_fuel(Seq::filter, 2);
    if s.len() == 0 {
    } else {
        lemma_member_filter_no_match(s.drop_last(), user_id);
        assert(s.drop_last().filter(|m: MemberModel| m.user_id != user_id) =~= s.drop_last());
    }
}

/// With unique member ids, filtering the user out removes exactly its entry.
proof fn lemma_member_filter_single_remove(s: Seq<MemberModel>, user_id: u128, j: int)
    requires
        0 <= j < s.len(),
        s[j].user_id == user_id,
        forall|k: int| 0 <= k < s.len() && k != j ==> s[k].user_id != user_id,
    ensures
        s.filter(|m: MemberModel| m.user_id != user_id) =~= s.remove(j),
    decreases s.len(),
{
    reveal_with_fuel(Seq::filter, 2);
    if j == s.len() - 1 {
        lemma_member_filter_no_match(s.drop_last(), user_id);
        assert(s.remove(j) =~= s.drop_last());
    } else {
        lemma_member_filter_single_remove(s.drop_last(), user_id, j);
        assert(s.remove(j) =~= s.drop_last().remove(j).push(s.last()));
    }
}

/// One step of the nonempty-room filter over a growing prefix.
proof fn lemma_room_filter_step(s: Seq<RoomModel>, i: int)
    requires
        0 <= i < s.len(),
    ensures
        s.take(i + 1).filter(|r: RoomModel| r.members.len() > 0) == if s[i].members.len() > 0 {
            s.take(i).filter(|r: RoomModel| r.members.len() > 0).push(s[i])
        } else {
            s.take(i).filter(|r: RoomModel| r.members.len() > 0)
        },
{
    reveal_with_fuel(Seq::filter, 2);
    assert(s.take(i + 1).drop_last() =~= s.take(i));
    assert(s.take(i + 1).last() == s[i]);
}

/// The registry: rooms, direct endpoints, and the ghost log of published
/// frames.
pub struct ConnectionManager {
    pub chats: Vec<ChatRoom>,
    pub connections: Vec<OnlineUser>,
    pub published: Ghost<Map<u128, Seq<WebSocketMessage>>>,
}

impl ConnectionManager {
    /// The rooms, as models.
    pub open spec fn rooms(&self) -> Seq<RoomModel> {
        self.chats@.map_values(|r: ChatRoom| room_model(r))
    }

    /// The direct endpoints, as models.
    pub open spec fn online(&self) -> Seq<OnlineModel> {
        self.connections@.map_values(|u: OnlineUser| online_model(u))
    }

    /// Everything ever published on a room's broadcast channel.
    pub open spec fn log(&self, chat_id: u128) -> Seq<WebSocketMessage> {
        if self.published@.contains_key(chat_id) {
            self.published@[chat_id]
        } else {
            Seq::<WebSocketMessage>::empty()
        }
    }

    /// The registry's invariants: room ids unique, every room nonempty,
    /// member sessions unique per room, direct endpoints unique per user.
    pub open spec fn wf(&self) -> bool {
        &&& forall|i: int, j: int|
            0 <= i < j < self.chats@.len() ==> self.chats@[i].chat_id != self.chats@[j].chat_id
        &&& forall|i: int| 0 <= i < self.chats@.len() ==> #[trigger] self.chats@[i].users@.len() > 0
        &&& forall|i: int, a: int, b: int|
            0 <= i < self.chats@.len() && 0 <= a < b < self.chats@[i].users@.len()
                ==> #[trigger] self.chats@[i].users@[a].user_id
                != #[trigger] self.chats@[i].users@[b].user_id
        &&& forall|i: int, j: int|
            0 <= i < j < self.connections@.len() ==> self.connections@[i].id
                != self.connections@[j].id
    }

    /// An empty registry.
    pub fn new() -> (r: Self)
        ensures
            r.wf(),
            r.rooms() =~= Seq::<RoomModel>::empty(),
            r.online() =~= Seq::<OnlineModel>::empty(),
            forall|c: u128| r.log(c) =~= Seq::<WebSocketMessage>::empty(),
    {
        ConnectionManager {
            chats: Vec::new(),
            connections: Vec::new(),
            published: Ghost(Map::empty()),
        }
    }

    /// Joins a user to a room, creating the room and its broadcast channel on
    /// first use. An existing member session for the user is replaced; the
    /// returned subscription is freshly derived from the room's channel
    /// either way, and prior subscriptions stay independently valid.
    pub fn add_user_to_chat(&mut self, chat_id: u128, user_id: u128, now: u64) -> (r: Receiver<
        WebSocketMessage,
    >)
        requires
            old(self).wf(),
        ensures
            final(self).wf(),
            final(self).online() == old(self).online(),
            final(self).published@ == old(self).published@,
            room_member(final(self).rooms(), chat_id, user_id),
            !room_listed(old(self).rooms(), chat_id) ==> final(self).rooms() == old(self).rooms().push(
                RoomModel {
                    chat_id,
                    members: seq![
                        MemberModel { user_id, status: UserStatus::Online, last_activity: now },
                    ],
                },
            ),
            room_listed(old(self).rooms(), chat_id) ==> exists|i: int|
                0 <= i < old(self).rooms().len() && old(self).rooms()[i].chat_id == chat_id
                    && final(self).rooms() == old(self).rooms().update(
                    i,
                    RoomModel {
                        chat_id,
                        members: upsert_member(
                            old(self).rooms()[i].members,
                            MemberModel { user_id, status: UserStatus::Online, last_activity: now },
                        ),
                    },
                ),
    {
        let ghost rooms0 = self.rooms();
        let n = self.chats.len();
        let mut i: usize = 0;
        while i < n
            invariant
                *self == *old(self),
                rooms0 == self.rooms(),
                old(self).wf(),
                n == self.chats@.len(),
                0 <= i <= n,
                forall|k: int| 0 <= k < i ==> old(self).chats@[k].chat_id != chat_id,
            decreases n - i,
        {
            if self.chats[i].chat_id == chat_id {
                let ghost orig_users = self.chats@[i as int].users@;
                proof {
                    assert(rooms0[i as int].chat_id == chat_id);
                    assert(room_listed(rooms0, chat_id));
                    assert forall|a: int, b: int|
                        0 <= a < b < orig_users.len() implies orig_users[a].user_id
                        != orig_users[b].user_id by {
                        assert(self.chats@[i as int].users@[a].user_id
                            != self.chats@[i as int].users@[b].user_id);
                    }
                }
                let mut room = self.chats.remove(i);
                let (member_tx, _member_rx) = frame_channel(CHANNEL_CAPACITY);
                let conn = UserConnection {
                    user_id,
                    sender: member_tx,
                    status: UserStatus::Online,
                    last_activity: now,
                };
                let ghost m = member_model(conn);
                let m_users = room.users.len();
                let mut j: usize = 0;
                let mut found = false;
                while j < m_users && !found
                    invariant
                        room.users@ == orig_users,
                        m_users == orig_users.len(),
                        0 <= j <= m_users,
                        !found ==> forall|k: int| 0 <= k < j ==> orig_users[k].user_id != user_id,
                        found ==> j < m_users && orig_users[j as int].user_id == user_id,
                    decreases m_users - j + (if found { 0int } else { 1int }),
                {
                    if room.users[j].user_id == user_id {
                        found = true;
                    } else {
                        j = j + 1;
                    }
                }
                if found {
                    room.users.remove(j);
                    room.users.insert(j, conn);
                    proof {
                        orig_users.remove_ensures(j as int);
                        orig_users.remove(j as int).insert_ensures(j as int, conn);
                        assert(room.users@ =~= orig_users.update(j as int, conn));
                        assert(room.users@.map_values(|c: UserConnection| member_model(c)) =~= upsert_member(
                            orig_users.map_values(|c: UserConnection| member_model(c)),
                            m,
                        )) by {
                            assert(orig_users.map_values(
                                |c: UserConnection| member_model(c),
                            )[j as int].user_id == user_id);
                        }
                    }
                } else {
                    room.users.push(conn);
                    proof {
                        let mm = orig_users.map_values(|c: UserConnection| member_model(c));
                        assert forall|k: int| 0 <= k < mm.len() implies mm[k].user_id != user_id by {
                            assert(orig_users[k].user_id != user_id);
                        }
                        assert(room.users@.map_values(|c: UserConnection| member_model(c)) =~= upsert_member(
                            mm,
                            m,
                        ));
                    }
                }
                let rx = frame_subscribe(&room.channel);
                let ghost chats_mid = self.chats@;
                self.chats.insert(i, room);
                proof {
                    chats_mid.insert_ensures(i as int, room);
                    assert(self.chats@ =~= old(self).chats@.update(i as int, room));
                    assert(self.rooms() =~= rooms0.update(
                        i as int,
                        RoomModel {
                            chat_id,
                            members: upsert_member(rooms0[i as int].members, m),
                        },
                    ));
                    assert(self.online() =~= old(self).online());
                    assert(room_model(room).members[j as int].user_id == user_id);
                    assert(room_member(self.rooms(), chat_id, user_id)) by {
                        assert(self.rooms()[i as int].chat_id == chat_id);
                        assert(self.rooms()[i as int].members[j as int].user_id == user_id);
                    }
                    assert forall|a: int, b: int|
                        0 <= a < b < self.chats@.len() implies self.chats@[a].chat_id
                        != self.chats@[b].chat_id by {
                        assert(old(self).chats@[a].chat_id == self.chats@[a].chat_id);
                        assert(old(self).chats@[b].chat_id == self.chats@[b].chat_id);
                    }
                    assert forall|p: int, a: int, b: int|
                        0 <= p < self.chats@.len() && 0 <= a < b
                            < self.chats@[p].users@.len() implies self.chats@[p].users@[a].user_id
                        != self.chats@[p].users@[b].user_id by {
                        if p == i as int {
                            if found {
                                assert(self.chats@[p].users@ =~= orig_users.update(j as int, conn));
                            } else {
                                assert(self.chats@[p].users@ == orig_users.push(conn));
                                if b == orig_users.len() {
                                    assert(orig_users[a].user_id != user_id);
                                }
                            }
                        } else {
                            assert(self.chats@[p] == old(self).chats@[p]);
                        }
                    }
                }
                return rx;
            }
            i = i + 1;
        }
        let (room_tx, _room_rx) = frame_channel(CHANNEL_CAPACITY);
        let (member_tx, _member_rx) = frame_channel(CHANNEL_CAPACITY);
        let conn = UserConnection {
            user_id,
            sender: member_tx,
            status: UserStatus::Online,
            last_activity: now,
        };
        let mut users: Vec<UserConnection> = Vec::new();
        users.push(conn);
        let room = ChatRoom { chat_id, users, channel: room_tx };
        let rx = frame_subscribe(&room.channel);
        let ghost mnew = RoomModel {
            chat_id,
            members: seq![MemberModel { user_id, status: UserStatus::Online, last_activity: now }],
        };
        self.chats.push(room);
        proof {
            assert(room_model(room).members =~= mnew.members);
            assert(self.rooms() =~= rooms0.push(mnew));
            assert(self.online() =~= old(self).online());
            assert(!room_listed(rooms0, chat_id)) by {
                if room_listed(rooms0, chat_id) {
                    let p = choose|p: int| 0 <= p < rooms0.len() && rooms0[p].chat_id == chat_id;
                    assert(old(self).chats@[p].chat_id != chat_id);
                    assert(rooms0[p].chat_id == old(self).chats@[p].chat_id);
                }
            }
            assert(room_member(self.rooms(), chat_id, user_id)) by {
                let last = self.rooms().len() - 1;
                assert(self.rooms()[last].chat_id == chat_id);
                assert(self.rooms()[last].members[0].user_id == user_id);
            }
            assert forall|a: int, b: int|
                0 <= a < b < self.chats@.len() implies self.chats@[a].chat_id
                != self.chats@[b].chat_id by {
                if b < old(self).chats@.len() {
                    assert(self.chats@[a] == old(self).chats@[a]);
                    assert(self.chats@[b] == old(self).chats@[b]);
                } else {
                    assert(self.chats@[a] == old(self).chats@[a]);
                    assert(rooms0[a].chat_id == old(self).chats@[a].chat_id);
                }
            }
        }
        rx
    }

    /// Removes a user's member session from a room; a room left empty is
    /// dropped, closing its channel. Calling this when no such session
    /// exists changes nothing and does not error.
    pub fn remove_user_from_chat(&mut self, chat_id: u128, user_id: u128)
        requires
            old(self).wf(),
        ensures
            final(self).wf(),
            final(self).online() == old(self).online(),
            final(self).published@ == old(self).published@,
            !room_member(old(self).rooms(), chat_id, user_id) ==> *final(self) == *old(self),
            !room_member(final(self).rooms(), chat_id, user_id),
            room_member(old(self).rooms(), chat_id, user_id) ==> exists|i: int, j: int|
                0 <= i < old(self).rooms().len() && old(self).rooms()[i].chat_id == chat_id && 0
                    <= j < old(self).rooms()[i].members.len()
                    && old(self).rooms()[i].members[j].user_id == user_id && final(self).rooms()
                    == (if old(self).rooms()[i].members.len() == 1 {
                    old(self).rooms().remove(i)
                } else {
                    old(self).rooms().update(
                        i,
                        RoomModel { chat_id, members: old(self).rooms()[i].members.remove(j) },
                    )
                }),
    {
        let ghost rooms0 = self.rooms();
        let n = self.chats.len();
        let mut i: usize = 0;
        while i < n
            invariant
                *self == *old(self),
                rooms0 == self.rooms(),
                old(self).wf(),
                n == self.chats@.len(),
                0 <= i <= n,
                forall|k: int| 0 <= k < i ==> old(self).chats@[k].chat_id != chat_id,
            decreases n - i,
        {
            if self.chats[i].chat_id == chat_id {
                let ghost orig_users = self.chats@[i as int].users@;
                let m_users = self.chats[i].users.len();
                let mut j: usize = 0;
                while j < m_users
                    invariant
                        *self == *old(self),
                        rooms0 == self.rooms(),
                        old(self).wf(),
                        0 <= i < self.chats@.len(),
                        self.chats@[i as int].chat_id == chat_id,
                        forall|k: int| 0 <= k < i ==> old(self).chats@[k].chat_id != chat_id,
                        orig_users == self.chats@[i as int].users@,
                        m_users == orig_users.len(),
                        0 <= j <= m_users,
                        forall|k: int| 0 <= k < j ==> orig_users[k].user_id != user_id,
                    decreases m_users - j,
                {
                    if self.chats[i].users[j].user_id == user_id {
                        proof {
                            assert forall|a: int, b: int|
                                0 <= a < b < orig_users.len() implies orig_users[a].user_id
                                != orig_users[b].user_id by {
                                assert(self.chats@[i as int].users@[a].user_id
                                    != self.chats@[i as int].users@[b].user_id);
                            }
                        }
                        let mut room = self.chats.remove(i);
                        room.users.remove(j);
                        proof {
                            orig_users.remove_ensures(j as int);
                        }
                        if room.users.len() == 0 {
                            proof {
                                assert(self.chats@ =~= old(self).chats@.remove(i as int));
                                assert(self.rooms() =~= rooms0.remove(i as int));
                                assert(self.online() =~= old(self).online());
                                assert(rooms0[i as int].members.len() == 1);
                                assert(rooms0[i as int].members[j as int].user_id == user_id);
                                assert forall|a: int, b: int|
                                    0 <= a < b < self.chats@.len() implies self.chats@[a].chat_id
                                    != self.chats@[b].chat_id by {
                                    let a0 = if a < i as int { a } else { a + 1 };
                                    let b0 = if b < i as int { b } else { b + 1 };
                                    assert(self.chats@[a] == old(self).chats@[a0]);
                                    assert(self.chats@[b] == old(self).chats@[b0]);
                                }
                                assert(!room_member(self.rooms(), chat_id, user_id)) by {
                                    if room_member(self.rooms(), chat_id, user_id) {
                                        let (p, q) = choose|p: int, q: int|
                                            0 <= p < self.rooms().len() && self.rooms()[p].chat_id
                                                == chat_id && 0 <= q < self.rooms()[p].members.len()
                                                && self.rooms()[p].members[q].user_id == user_id;
                                        let p0 = if p < i as int { p } else { p + 1 };
                                        assert(self.chats@[p] == old(self).chats@[p0]);
                                        assert(old(self).chats@[p0].chat_id != chat_id);
                                    }
                                }
                            }
                            return ;
                        }
                        let ghost chats_mid = self.chats@;
                        let ghost room_after = room;
                        self.chats.insert(i, room);
                        proof {
                            chats_mid.insert_ensures(i as int, room_after);
                            assert(self.chats@ =~= old(self).chats@.update(i as int, room_after));
                            assert(room_after.users@ == orig_users.remove(j as int));
                            assert(room_model(room_after).members =~= rooms0[i as int].members.remove(
                                j as int,
                            ));
                            assert(self.rooms() =~= rooms0.update(
                                i as int,
                                RoomModel {
                                    chat_id,
                                    members: rooms0[i as int].members.remove(j as int),
                                },
                            ));
                            assert(self.online() =~= old(self).online());
                            assert(rooms0[i as int].members.len() > 1);
                            assert(rooms0[i as int].members[j as int].user_id == user_id);
                            assert forall|a: int, b: int|
                                0 <= a < b < self.chats@.len() implies self.chats@[a].chat_id
                                != self.chats@[b].chat_id by {
                                assert(old(self).chats@[a].chat_id == self.chats@[a].chat_id);
                                assert(old(self).chats@[b].chat_id == self.chats@[b].chat_id);
                            }
                            assert forall|p: int, a: int, b: int|
                                0 <= p < self.chats@.len() && 0 <= a < b
                                    < self.chats@[p].users@.len() implies self.chats@[p].users@[a].user_id
                                != self.chats@[p].users@[b].user_id by {
                                if p == i as int {
                                    assert(self.chats@[p].users@ == orig_users.remove(j as int));
                                    let a0 = if a < j as int { a } else { a + 1 };
                                    let b0 = if b < j as int { b } else { b + 1 };
                                    assert(self.chats@[p].users@[a] == orig_users[a0]);
                                    assert(self.chats@[p].users@[b] == orig_users[b0]);
                                } else {
                                    assert(self.chats@[p] == old(self).chats@[p]);
                                }
                            }
                            assert forall|p: int| 0 <= p < self.chats@.len() implies #[trigger] self.chats@[p].users@.len()
                                > 0 by {
                                if p != i as int {
                                    assert(self.chats@[p] == old(self).chats@[p]);
                                }
                            }
                            assert(!room_member(self.rooms(), chat_id, user_id)) by {
                                if room_member(self.rooms(), chat_id, user_id) {
                                    let (p, q) = choose|p: int, q: int|
                                        0 <= p < self.rooms().len() && self.rooms()[p].chat_id
                                            == chat_id && 0 <= q < self.rooms()[p].members.len()
                                            && self.rooms()[p].members[q].user_id == user_id;
                                    if p == i as int {
                                        let q0 = if q < j as int { q } else { q + 1 };
                                        assert(self.chats@[p].users@[q] == orig_users[q0]);
                                        assert(orig_users[q0].user_id != user_id);
                                    } else {
                                        assert(self.chats@[p] == old(self).chats@[p]);
                                        assert(old(self).chats@[p].chat_id != chat_id);
                                    }
                                }
                            }
                        }
                        return ;
                    }
                    j = j + 1;
                }
                proof {
                    assert(!room_member(self.rooms(), chat_id, user_id)) by {
                        if room_member(self.rooms(), chat_id, user_id) {
                            let (p, q) = choose|p: int, q: int|
                                0 <= p < self.rooms().len() && self.rooms()[p].chat_id == chat_id
                                    && 0 <= q < self.rooms()[p].members.len()
                                    && self.rooms()[p].members[q].user_id == user_id;
                            if p == i as int {
                                assert(orig_users[q].user_id != user_id);
                            } else if p < i as int {
                                assert(self.chats@[p].chat_id != chat_id);
                            } else {
                                assert(self.chats@[p].chat_id != self.chats@[i as int].chat_id);
                            }
                        }
                    }
                }
                return ;
            }
            i = i + 1;
        }
        proof {
            assert(!room_member(self.rooms(), chat_id, user_id)) by {
                if room_member(self.rooms(), chat_id, user_id) {
                    let (p, q) = choose|p: int, q: int|
                        0 <= p < self.rooms().len() && self.rooms()[p].chat_id == chat_id && 0 <= q
                            < self.rooms()[p].members.len() && self.rooms()[p].members[q].user_id
                            == user_id;
                    assert(self.chats@[p].chat_id != chat_id);
                }
            }
        }
    }

    /// Publishes a frame on a room's broadcast channel, exactly once; without
    /// a live room this is a no-op. The sender is carried in the payload and
    /// is not filtered out on delivery. Publication never blocks; a slow
    /// subscriber loses the oldest frames instead.
    pub fn broadcast_to_chat(&mut self, chat_id: u128, sender_id: u128, message: WebSocketMessage)
        requires
            old(self).wf(),
        ensures
            final(self).wf(),
            final(self).chats == old(self).chats,
            final(self).connections == old(self).connections,
            room_listed(old(self).rooms(), chat_id) ==> final(self).published@ == old(self).published@.insert(chat_id, old(self).log(chat_id).push(message)),
            !room_listed(old(self).rooms(), chat_id) ==> *final(self) == *old(self),
            forall|c: u128| c != chat_id ==> final(self).log(c) == old(self).log(c),
    {
        let ghost rooms0 = self.rooms();
        let ghost m = message;
        let n = self.chats.len();
        let mut i: usize = 0;
        while i < n
            invariant
                *self == *old(self),
                rooms0 == self.rooms(),
                m == message,
                old(self).wf(),
                n == self.chats@.len(),
                0 <= i <= n,
                forall|k: int| 0 <= k < i ==> old(self).chats@[k].chat_id != chat_id,
            decreases n - i,
        {
            if self.chats[i].chat_id == chat_id {
                let _delivered = frame_send(&self.chats[i].channel, message);
                proof {
                    assert(rooms0[i as int].chat_id == chat_id);
                    assert(room_listed(rooms0, chat_id));
                }
                self.published = Ghost(self.published@.insert(chat_id, self.log(chat_id).push(m)));
                return ;
            }
            i = i + 1;
        }
        proof {
            assert(!room_listed(rooms0, chat_id)) by {
                if room_listed(rooms0, chat_id) {
                    let p = choose|p: int| 0 <= p < rooms0.len() && rooms0[p].chat_id == chat_id;
                    assert(old(self).chats@[p].chat_id != chat_id);
                    assert(rooms0[p].chat_id == old(self).chats@[p].chat_id);
                }
            }
        }
    }

    /// Publishes a frame on a room's broadcast channel; the argument order of
    /// the synchronous call path.
    pub fn broadcast_message(&mut self, message: WebSocketMessage, chat_id: u128, sender_id: u128)
        requires
            old(self).wf(),
        ensures
            final(self).wf(),
            final(self).chats == old(self).chats,
            final(self).connections == old(self).connections,
            room_listed(old(self).rooms(), chat_id) ==> final(self).published@ == old(self).published@.insert(chat_id, old(self).log(chat_id).push(message)),
            !room_listed(old(self).rooms(), chat_id) ==> *final(self) == *old(self),
            forall|c: u128| c != chat_id ==> final(self).log(c) == old(self).log(c),
    {
        self.broadcast_to_chat(chat_id, sender_id, message)
    }

    /// Sets a member's presence and refreshes its last activity; without a
    /// matching room and member session this is a no-op.
    pub fn update_user_status(&mut self, chat_id: u128, user_id: u128, status: UserStatus, now: u64)
        requires
            old(self).wf(),
        ensures
            final(self).wf(),
            final(self).online() == old(self).online(),
            final(self).published@ == old(self).published@,
            !room_member(old(self).rooms(), chat_id, user_id) ==> *final(self) == *old(self),
            room_member(old(self).rooms(), chat_id, user_id) ==> exists|i: int, j: int|
                0 <= i < old(self).rooms().len() && old(self).rooms()[i].chat_id == chat_id && 0
                    <= j < old(self).rooms()[i].members.len()
                    && old(self).rooms()[i].members[j].user_id == user_id && final(self).rooms()
                    == old(self).rooms().update(
                    i,
                    RoomModel {
                        chat_id,
                        members: old(self).rooms()[i].members.update(
                            j,
                            MemberModel { user_id, status, last_activity: now },
                        ),
                    },
                ),
    {
        let ghost rooms0 = self.rooms();
        let n = self.chats.len();
        let mut i: usize = 0;
        while i < n
            invariant
                *self == *old(self),
                rooms0 == self.rooms(),
                old(self).wf(),
                n == self.chats@.len(),
                0 <= i <= n,
                forall|k: int| 0 <= k < i ==> old(self).chats@[k].chat_id != chat_id,
            decreases n - i,
        {
            if self.chats[i].chat_id == chat_id {
                let ghost orig_users = self.chats@[i as int].users@;
                let m_users = self.chats[i].users.len();
                let mut j: usize = 0;
                while j < m_users
                    invariant
                        *self == *old(self),
                        rooms0 == self.rooms(),
                        old(self).wf(),
                        0 <= i < self.chats@.len(),
                        self.chats@[i as int].chat_id == chat_id,
                        forall|k: int| 0 <= k < i ==> old(self).chats@[k].chat_id != chat_id,
                        orig_users == self.chats@[i as int].users@,
                        m_users == orig_users.len(),
                        0 <= j <= m_users,
                        forall|k: int| 0 <= k < j ==> orig_users[k].user_id != user_id,
                    decreases m_users - j,
                {
                    if self.chats[i].users[j].user_id == user_id {
                        let mut room = self.chats.remove(i);
                        let conn = room.users.remove(j);
                        let refreshed = UserConnection {
                            user_id: conn.user_id,
                            sender: conn.sender,
                            status,
                            last_activity: now,
                        };
                        proof {
                            orig_users.remove_ensures(j as int);
                            orig_users.remove(j as int).insert_ensures(j as int, refreshed);
                        }
                        room.users.insert(j, refreshed);
                        let ghost chats_mid = self.chats@;
                        let ghost room_after = room;
                        self.chats.insert(i, room);
                        proof {
                            chats_mid.insert_ensures(i as int, room_after);
                            assert(room_after.users@ =~= orig_users.update(j as int, refreshed));
                            assert(self.chats@ =~= old(self).chats@.update(i as int, room_after));
                            assert(rooms0[i as int].members[j as int].user_id == user_id);
                            assert(room_model(room_after).members =~= rooms0[i as int].members.update(
                                j as int,
                                MemberModel { user_id, status, last_activity: now },
                            ));
                            assert(self.rooms() =~= rooms0.update(
                                i as int,
                                RoomModel {
                                    chat_id,
                                    members: rooms0[i as int].members.update(
                                        j as int,
                                        MemberModel { user_id, status, last_activity: now },
                                    ),
                                },
                            ));
                            assert(self.online() =~= old(self).online());
                            assert forall|a: int, b: int|
                                0 <= a < b < self.chats@.len() implies self.chats@[a].chat_id
                                != self.chats@[b].chat_id by {
                                assert(old(self).chats@[a].chat_id == self.chats@[a].chat_id);
                                assert(old(self).chats@[b].chat_id == self.chats@[b].chat_id);
                            }
                            assert forall|p: int, a: int, b: int|
                                0 <= p < self.chats@.len() && 0 <= a < b
                                    < self.chats@[p].users@.len() implies self.chats@[p].users@[a].user_id
                                != self.chats@[p].users@[b].user_id by {
                                if p == i as int {
                                    assert(self.chats@[p].users@ =~= orig_users.update(
                                        j as int,
                                        refreshed,
                                    ));
                                    assert(old(self).chats@[p].users@[a].user_id == self.chats@[p].users@[a].user_id);
                                    assert(old(self).chats@[p].users@[b].user_id == self.chats@[p].users@[b].user_id);
                                } else {
                                    assert(self.chats@[p] == old(self).chats@[p]);
                                }
                            }
                            assert forall|p: int| 0 <= p < self.chats@.len() implies #[trigger] self.chats@[p].users@.len()
                                > 0 by {
                                if p != i as int {
                                    assert(self.chats@[p] == old(self).chats@[p]);
                                }
                            }
                        }
                        return ;
                    }
                    j = j + 1;
                }
                proof {
                    assert(!room_member(rooms0, chat_id, user_id)) by {
                        if room_member(rooms0, chat_id, user_id) {
                            let (p, q) = choose|p: int, q: int|
                                0 <= p < rooms0.len() && rooms0[p].chat_id == chat_id && 0 <= q
                                    < rooms0[p].members.len() && rooms0[p].members[q].user_id
                                    == user_id;
                            if p == i as int {
                                assert(orig_users[q].user_id != user_id);
                            } else if p < i as int {
                                assert(old(self).chats@[p].chat_id != chat_id);
                            } else {
                                assert(self.chats@[p].chat_id != self.chats@[i as int].chat_id);
                            }
                        }
                    }
                }
                return ;
            }
            i = i + 1;
        }
        proof {
            assert(!room_member(rooms0, chat_id, user_id)) by {
                if room_member(rooms0, chat_id, user_id) {
                    let (p, q) = choose|p: int, q: int|
                        0 <= p < rooms0.len() && rooms0[p].chat_id == chat_id && 0 <= q
                            < rooms0[p].members.len() && rooms0[p].members[q].user_id == user_id;
                    assert(old(self).chats@[p].chat_id != chat_id);
                }
            }
        }
    }

    /// Pushes a frame to a user's direct endpoint. Without an endpoint the
    /// user is offline and NotFound comes back; with one, the push succeeds
    /// whether or not anyone currently listens — delivery is best effort,
    /// and a slow or absent subscriber is not an error.
    pub fn send_direct_message(&self, user_id: u128, message: WebSocketMessage) -> (r: Result<
        (),
        ApiError,
    >)
        ensures
            r is Ok <==> user_online(self.online(), user_id),
            r matches Err(e) ==> e == ApiError::NotFound,
    {
        let n = self.connections.len();
        let mut i: usize = 0;
        while i < n
            invariant
                n == self.connections@.len(),
                0 <= i <= n,
                forall|k: int| 0 <= k < i ==> self.connections@[k].id != user_id,
            decreases n - i,
        {
            if self.connections[i].id == user_id {
                proof {
                    assert(self.online()[i as int].id == user_id);
                }
                let _delivered = frame_send(&self.connections[i].sender, message);
                return Ok(());
            }
            i = i + 1;
        }
        proof {
            assert(!user_online(self.online(), user_id)) by {
                if user_online(self.online(), user_id) {
                    let p = choose|p: int|
                        0 <= p < self.online().len() && self.online()[p].id == user_id;
                    assert(self.connections@[p].id != user_id);
                }
            }
        }
        Err(ApiError::NotFound)
    }

    /// Resolves a username to its direct endpoint, if the user is online; the
    /// first matching endpoint answers.
    pub fn get_online_user(&self, username: &String) -> (r: Option<OnlineUser>)
        ensures
            r is Some == exists|i: int|
                0 <= i < self.connections@.len() && self.connections@[i].username@ == username@,
            r matches Some(u) ==> u.username@ == username@ && exists|i: int|
                0 <= i < self.connections@.len() && self.connections@[i] == u,
    {
        let n = self.connections.len();
        let mut i: usize = 0;
        while i < n
            invariant
                n == self.connections@.len(),
                0 <= i <= n,
                forall|k: int| 0 <= k < i ==> self.connections@[k].username@ != username@,
            decreases n - i,
        {
            if self.connections[i].username == *username {
                let u = OnlineUser {
                    id: self.connections[i].id,
                    username: self.connections[i].username.clone(),
                    sender: clone_sender(&self.connections[i].sender),
                };
                proof {
                    assert(self.connections@[i as int] == u);
                }
                return Some(u);
            }
            i = i + 1;
        }
        None
    }

    /// Opens (or replaces) a user's direct endpoint and returns a
    /// subscription to the fresh direct channel; a replaced channel is
    /// dropped, and its subscribers see closure.
    pub fn register_connection(&mut self, user_id: u128, username: String) -> (r: Receiver<
        WebSocketMessage,
    >)
        requires
            old(self).wf(),
        ensures
            final(self).wf(),
            final(self).chats == old(self).chats,
            final(self).published@ == old(self).published@,
            user_online(final(self).online(), user_id),
            !user_online(old(self).online(), user_id) ==> final(self).online() == old(self).online().push(OnlineModel { id: user_id, username: username@ }),
            user_online(old(self).online(), user_id) ==> exists|i: int|
                0 <= i < old(self).online().len() && old(self).online()[i].id == user_id && final(self).online() == old(self).online().update(
                    i,
                    OnlineModel { id: user_id, username: username@ },
                ),
    {
        let ghost online0 = self.online();
        let (tx, _rx) = frame_channel(CHANNEL_CAPACITY);
        let endpoint = OnlineUser { id: user_id, username, sender: tx };
        let rx = frame_subscribe(&endpoint.sender);
        let n = self.connections.len();
        let mut i: usize = 0;
        while i < n
            invariant
                *self == *old(self),
                online0 == self.online(),
                old(self).wf(),
                n == self.connections@.len(),
                0 <= i <= n,
                forall|k: int| 0 <= k < i ==> old(self).connections@[k].id != user_id,
                endpoint.id == user_id,
                endpoint.username@ == username@,
            decreases n - i,
        {
            if self.connections[i].id == user_id {
                let ghost conns_before = self.connections@;
                self.connections.remove(i);
                self.connections.insert(i, endpoint);
                proof {
                    conns_before.remove_ensures(i as int);
                    conns_before.remove(i as int).insert_ensures(i as int, endpoint);
                    assert(self.connections@ =~= conns_before.update(i as int, endpoint));
                    assert(online0[i as int].id == user_id);
                    assert(self.online() =~= online0.update(
                        i as int,
                        OnlineModel { id: user_id, username: endpoint.username@ },
                    ));
                    assert(self.online()[i as int].id == user_id);
                    assert forall|a: int, b: int|
                        0 <= a < b < self.connections@.len() implies self.connections@[a].id
                        != self.connections@[b].id by {
                        assert(conns_before[a].id == self.connections@[a].id || a == i as int);
                        assert(conns_before[b].id == self.connections@[b].id || b == i as int);
                    }
                }
                return rx;
            }
            i = i + 1;
        }
        let ghost conns_before = self.connections@;
        self.connections.push(endpoint);
        proof {
            assert(self.online() =~= online0.push(
                OnlineModel { id: user_id, username: endpoint.username@ },
            ));
            assert(self.online()[self.online().len() - 1].id == user_id);
            assert(!user_online(online0, user_id)) by {
                if user_online(online0, user_id) {
                    let p = choose|p: int| 0 <= p < online0.len() && online0[p].id == user_id;
                    assert(old(self).connections@[p].id != user_id);
                }
            }
            assert forall|a: int, b: int|
                0 <= a < b < self.connections@.len() implies self.connections@[a].id
                != self.connections@[b].id by {
                if b < conns_before.len() {
                } else {
                    assert(self.connections@[a] == conns_before[a]);
                }
            }
        }
        rx
    }

    /// Closes a user's direct endpoint and removes the user from every room,
    /// dropping rooms left empty. Calling this for a user with no endpoint
    /// changes nothing and does not error.
    pub fn unregister_connection(&mut self, user_id: u128)
        requires
            old(self).wf(),
        ensures
            final(self).wf(),
            final(self).published@ == old(self).published@,
            !user_online(old(self).online(), user_id) ==> *final(self) == *old(self),
            !user_online(final(self).online(), user_id),
            user_online(old(self).online(), user_id) ==> exists|i: int|
                0 <= i < old(self).online().len() && old(self).online()[i].id == user_id && final(self).online() == old(self).online().remove(i),
            user_online(old(self).online(), user_id) ==> final(self).rooms() == sweep_rooms(
                old(self).rooms(),
                user_id,
            ),
            user_online(old(self).online(), user_id) ==> forall|c: u128|
                !room_member(final(self).rooms(), c, user_id),
    {
        let ghost rooms0 = self.rooms();
        let ghost online0 = self.online();
        let ghost orig = self.chats@;
        let ghost mapped0 = rooms0.map_values(|r: RoomModel| drop_member(r, user_id));
        let n_conns = self.connections.len();
        let mut idx: usize = 0;
        let mut found_conn = false;
        while idx < n_conns && !found_conn
            invariant
                *self == *old(self),
                online0 == self.online(),
                old(self).wf(),
                n_conns == self.connections@.len(),
                0 <= idx <= n_conns,
                !found_conn ==> forall|k: int| 0 <= k < idx ==> old(self).connections@[k].id
                    != user_id,
                found_conn ==> idx < n_conns && old(self).connections@[idx as int].id == user_id,
            decreases n_conns - idx + (if found_conn { 0int } else { 1int }),
        {
            if self.connections[idx].id == user_id {
                found_conn = true;
            } else {
                idx = idx + 1;
            }
        }
        if !found_conn {
            proof {
                assert(!user_online(online0, user_id)) by {
                    if user_online(online0, user_id) {
                        let p = choose|p: int| 0 <= p < online0.len() && online0[p].id == user_id;
                        assert(self.connections@[p].id != user_id);
                    }
                }
            }
            return ;
        }
        let ghost mut dropped: int = 0;
        let mut k: usize = 0;
        while k < self.chats.len()
            invariant
                self.connections@ == old(self).connections@,
                self.published@ == old(self).published@,
                self.wf(),
                old(self).wf(),
                rooms0 == old(self).rooms(),
                orig == old(self).chats@,
                mapped0 == rooms0.map_values(|r: RoomModel| drop_member(r, user_id)),
                0 <= k <= self.chats@.len(),
                0 <= dropped,
                k + dropped <= orig.len(),
                self.chats@.len() + dropped == orig.len(),
                self.chats@.skip(k as int) == orig.skip(k + dropped),
                self.rooms().take(k as int) =~= mapped0.take(k + dropped).filter(
                    |r: RoomModel| r.members.len() > 0,
                ),
                forall|q: int, w: int|
                    0 <= q < k && 0 <= w < self.chats@[q].users@.len()
                        ==> #[trigger] self.chats@[q].users@[w].user_id != user_id,
            decreases self.chats@.len() - k,
        {
            let ghost t = k + dropped;
            proof {
                assert(self.chats@.skip(k as int)[0] == self.chats@[k as int]);
                assert(orig.skip(t)[0] == orig[t]);
                assert(self.chats@[k as int] == orig[t]);
                assert(rooms0[t] == room_model(orig[t]));
                assert(mapped0[t] == drop_member(rooms0[t], user_id));
            }
            let ghost orig_users = self.chats@[k as int].users@;
            let m_users = self.chats[k].users.len();
            let mut j: usize = 0;
            let mut found = false;
            while j < m_users && !found
                invariant
                    0 <= k < self.chats@.len(),
                    orig_users == self.chats@[k as int].users@,
                    m_users == orig_users.len(),
                    0 <= j <= m_users,
                    !found ==> forall|w: int| 0 <= w < j ==> orig_users[w].user_id != user_id,
                    found ==> j < m_users && orig_users[j as int].user_id == user_id,
                decreases m_users - j + (if found { 0int } else { 1int }),
            {
                if self.chats[k].users[j].user_id == user_id {
                    found = true;
                } else {
                    j = j + 1;
                }
            }
            proof {
                assert forall|a: int, b: int|
                    0 <= a < b < orig_users.len() implies orig_users[a].user_id
                    != orig_users[b].user_id by {
                    assert(self.chats@[k as int].users@[a].user_id
                        != self.chats@[k as int].users@[b].user_id);
                }
            }
            if !found {
                proof {
                    lemma_member_filter_no_match(
                        rooms0[t].members,
                        user_id,
                    );
                    assert(mapped0[t].members =~= rooms0[t].members);
                    assert(mapped0[t].members.len() > 0);
                    lemma_room_filter_step(mapped0, t);
                    assert(mapped0[t] =~= room_model(self.chats@[k as int]));
                    assert(self.rooms().take(k as int + 1) =~= self.rooms().take(k as int).push(
                        room_model(self.chats@[k as int]),
                    ));
                    assert(self.rooms().take(k as int + 1) =~= mapped0.take(t + 1).filter(
                        |r: RoomModel| r.members.len() > 0,
                    ));
                    assert forall|w: int|
                        0 <= w < self.chats@.skip(k as int + 1).len() implies self.chats@.skip(
                        k as int + 1,
                    )[w] == #[trigger] orig.skip(t + 1)[w] by {
                        assert(self.chats@.skip(k as int + 1)[w] == self.chats@[k + 1 + w]);
                        assert(self.chats@.skip(k as int)[w + 1] == self.chats@[k + 1 + w]);
                        assert(orig.skip(t)[w + 1] == orig[t + 1 + w]);
                        assert(orig.skip(t + 1)[w] == orig[t + 1 + w]);
                    }
                    assert(self.chats@.skip(k as int + 1) =~= orig.skip(t + 1));
                }
                k = k + 1;
                continue ;
            }
            proof {
                lemma_member_filter_single_remove(rooms0[t].members, user_id, j as int);
                assert(rooms0[t].members[j as int].user_id == user_id);
                assert(mapped0[t].members =~= rooms0[t].members.remove(j as int));
            }
            if m_users == 1 {
                let ghost chats_before = self.chats@;
                let _gone = self.chats.remove(k);
                proof {
                    assert(mapped0[t].members.len() == 0);
                    lemma_room_filter_step(mapped0, t);
                    chats_before.remove_ensures(k as int);
                    assert forall|w: int|
                        0 <= w < self.chats@.skip(k as int).len() implies self.chats@.skip(
                        k as int,
                    )[w] == #[trigger] orig.skip(t + 1)[w] by {
                        assert(self.chats@.skip(k as int)[w] == self.chats@[k + w]);
                        assert(self.chats@[k + w] == chats_before[k + 1 + w]);
                        assert(chats_before.skip(k as int)[w + 1] == chats_before[k + 1 + w]);
                        assert(orig.skip(t)[w + 1] == orig[t + 1 + w]);
                        assert(orig.skip(t + 1)[w] == orig[t + 1 + w]);
                    }
                    assert(self.chats@.skip(k as int) =~= orig.skip(t + 1));
                    assert(self.rooms().take(k as int) =~= chats_before.map_values(
                        |r: ChatRoom| room_model(r),
                    ).take(k as int));
                    assert(self.rooms().take(k as int) =~= mapped0.take(t + 1).filter(
                        |r: RoomModel| r.members.len() > 0,
                    ));
                    assert forall|a: int, b: int|
                        0 <= a < b < self.chats@.len() implies self.chats@[a].chat_id
                        != self.chats@[b].chat_id by {
                        let a0 = if a < k as int { a } else { a + 1 };
                        let b0 = if b < k as int { b } else { b + 1 };
                        assert(self.chats@[a] == chats_before[a0]);
                        assert(self.chats@[b] == chats_before[b0]);
                    }
                    assert forall|p: int, a: int, b: int|
                        0 <= p < self.chats@.len() && 0 <= a < b
                            < self.chats@[p].users@.len() implies self.chats@[p].users@[a].user_id
                        != self.chats@[p].users@[b].user_id by {
                        let p0 = if p < k as int { p } else { p + 1 };
                        assert(self.chats@[p] == chats_before[p0]);
                        assert(chats_before[p0].users@[a].user_id
                            != chats_before[p0].users@[b].user_id);
                    }
                    assert forall|p: int| 0 <= p < self.chats@.len() implies #[trigger] self.chats@[p].users@.len()
                        > 0 by {
                        let p0 = if p < k as int { p } else { p + 1 };
                        assert(self.chats@[p] == chats_before[p0]);
                    }
                    dropped = dropped + 1;
                }
            } else {
                let ghost chats_before = self.chats@;
                let mut room = self.chats.remove(k);
                room.users.remove(j);
                proof {
                    orig_users.remove_ensures(j as int);
                }
                let ghost chats_mid = self.chats@;
                let ghost room_after = room;
                self.chats.insert(k, room);
                proof {
                    chats_mid.insert_ensures(k as int, room_after);
                    assert(self.chats@ =~= chats_before.update(k as int, room_after));
                    assert(room_model(room_after).members =~= rooms0[t].members.remove(j as int));
                    assert(mapped0[t] =~= room_model(room_after));
                    assert(mapped0[t].members.len() > 0);
                    lemma_room_filter_step(mapped0, t);
                    assert forall|w: int|
                        0 <= w < self.chats@.skip(k as int + 1).len() implies self.chats@.skip(
                        k as int + 1,
                    )[w] == #[trigger] orig.skip(t + 1)[w] by {
                        assert(self.chats@.skip(k as int + 1)[w] == self.chats@[k + 1 + w]);
                        assert(self.chats@[k + 1 + w] == chats_before[k + 1 + w]);
                        assert(chats_before.skip(k as int)[w + 1] == chats_before[k + 1 + w]);
                        assert(orig.skip(t)[w + 1] == orig[t + 1 + w]);
                        assert(orig.skip(t + 1)[w] == orig[t + 1 + w]);
                    }
                    assert(self.chats@.skip(k as int + 1) =~= orig.skip(t + 1));
                    assert(self.rooms().take(k as int) =~= chats_before.map_values(
                        |r: ChatRoom| room_model(r),
                    ).take(k as int));
                    assert(self.rooms().take(k as int + 1) =~= self.rooms().take(k as int).push(
                        room_model(room_after),
                    ));
                    assert(self.rooms().take(k as int + 1) =~= mapped0.take(t + 1).filter(
                        |r: RoomModel| r.members.len() > 0,
                    ));
                    assert forall|a: int, b: int|
                        0 <= a < b < self.chats@.len() implies self.chats@[a].chat_id
                        != self.chats@[b].chat_id by {
                        assert(chats_before[a].chat_id == self.chats@[a].chat_id);
                        assert(chats_before[b].chat_id == self.chats@[b].chat_id);
                    }
                    assert forall|p: int, a: int, b: int|
                        0 <= p < self.chats@.len() && 0 <= a < b
                            < self.chats@[p].users@.len() implies self.chats@[p].users@[a].user_id
                        != self.chats@[p].users@[b].user_id by {
                        if p == k as int {
                            let a0 = if a < j as int { a } else { a + 1 };
                            let b0 = if b < j as int { b } else { b + 1 };
                            assert(self.chats@[p].users@[a] == orig_users[a0]);
                            assert(self.chats@[p].users@[b] == orig_users[b0]);
                        } else {
                            assert(self.chats@[p] == chats_before[p]);
                        }
                    }
                    assert forall|p: int| 0 <= p < self.chats@.len() implies #[trigger] self.chats@[p].users@.len()
                        > 0 by {
                        if p != k as int {
                            assert(self.chats@[p] == chats_before[p]);
                        }
                    }
                    assert forall|w: int|
                        0 <= w < self.chats@[k as int].users@.len() implies #[trigger] self.chats@[k as int].users@[w].user_id
                        != user_id by {
                        let w0 = if w < j as int { w } else { w + 1 };
                        assert(self.chats@[k as int].users@[w] == orig_users[w0]);
                    }
                }
                k = k + 1;
            }
        }
        proof {
            assert(self.chats@.len() as int == k as int);
            assert(k + dropped == orig.len());
            assert(mapped0.take(k + dropped) =~= mapped0);
            assert(self.rooms().take(k as int) =~= self.rooms());
            assert(self.rooms() =~= sweep_rooms(rooms0, user_id));
        }
        let ghost conns_before = self.connections@;
        self.connections.remove(idx);
        proof {
            conns_before.remove_ensures(idx as int);
            assert(online0[idx as int].id == user_id);
            assert(self.online() =~= online0.remove(idx as int));
            assert forall|a: int, b: int|
                0 <= a < b < self.connections@.len() implies self.connections@[a].id
                != self.connections@[b].id by {
                let a0 = if a < idx as int { a } else { a + 1 };
                let b0 = if b < idx as int { b } else { b + 1 };
                assert(self.connections@[a] == conns_before[a0]);
                assert(self.connections@[b] == conns_before[b0]);
            }
            assert(user_online(online0, user_id));
            assert(!user_online(self.online(), user_id)) by {
                if user_online(self.online(), user_id) {
                    let p = choose|p: int|
                        0 <= p < self.online().len() && self.online()[p].id == user_id;
                    let p0 = if p < idx as int { p } else { p + 1 };
                    assert(self.connections@[p] == conns_before[p0]);
                    assert(conns_before[p0].id != conns_before[idx as int].id);
                }
            }
            assert forall|c: u128| !room_member(self.rooms(), c, user_id) by {
                if room_member(self.rooms(), c, user_id) {
                    let (p, q) = choose|p: int, q: int|
                        0 <= p < self.rooms().len() && self.rooms()[p].chat_id == c && 0 <= q
                            < self.rooms()[p].members.len() && self.rooms()[p].members[q].user_id
                            == user_id;
                    assert(self.chats@[p].users@[q].user_id != user_id);
                }
            }
        }
    }
}

/// Whether a user currently holds a member session inside a room.
pub fn is_user_in_chat(connection_manager: &ConnectionManager, chat_id: u128, user_id: u128) -> (r:
    bool)
    requires
        connection_manager.wf(),
    ensures
        r == room_member(connection_manager.rooms(), chat_id, user_id),
{
    let n = connection_manager.chats.len();
    let mut i: usize = 0;
    while i < n
        invariant
            connection_manager.wf(),
            n == connection_manager.chats@.len(),
            0 <= i <= n,
            forall|k: int| 0 <= k < i ==> connection_manager.chats@[k].chat_id != chat_id,
        decreases n - i,
    {
        if connection_manager.chats[i].chat_id == chat_id {
            let m_users = connection_manager.chats[i].users.len();
            let mut j: usize = 0;
            while j < m_users
                invariant
                    connection_manager.wf(),
                    0 <= i < connection_manager.chats@.len(),
                    connection_manager.chats@[i as int].chat_id == chat_id,
                    forall|k: int| 0 <= k < i ==> connection_manager.chats@[k].chat_id != chat_id,
                    m_users == connection_manager.chats@[i as int].users@.len(),
                    0 <= j <= m_users,
                    forall|k: int|
                        0 <= k < j ==> connection_manager.chats@[i as int].users@[k].user_id
                            != user_id,
                decreases m_users - j,
            {
                if connection_manager.chats[i].users[j].user_id == user_id {
                    proof {
                        assert(connection_manager.rooms()[i as int].chat_id == chat_id);
                        assert(connection_manager.rooms()[i as int].members[j as int].user_id
                            == user_id);
                    }
                    return true;
                }
                j = j + 1;
            }
            proof {
                assert(!room_member(connection_manager.rooms(), chat_id, user_id)) by {
                    if room_member(connection_manager.rooms(), chat_id, user_id) {
                        let (p, q) = choose|p: int, q: int|
                            0 <= p < connection_manager.rooms().len()
                                && connection_manager.rooms()[p].chat_id == chat_id && 0 <= q
                                < connection_manager.rooms()[p].members.len()
                                && connection_manager.rooms()[p].members[q].user_id == user_id;
                        if p == i as int {
                            assert(connection_manager.chats@[p].users@[q].user_id != user_id);
                        } else if p < i as int {
                            assert(connection_manager.chats@[p].chat_id != chat_id);
                        } else {
                            assert(connection_manager.chats@[i as int].chat_id
                                != connection_manager.chats@[p].chat_id);
                        }
                    }
                }
            }
            return false;
        }
        i = i + 1;
    }
    proof {
        assert(!room_member(connection_manager.rooms(), chat_id, user_id)) by {
            if room_member(connection_manager.rooms(), chat_id, user_id) {
                let (p, q) = choose|p: int, q: int|
                    0 <= p < connection_manager.rooms().len()
                        && connection_manager.rooms()[p].chat_id == chat_id && 0 <= q
                        < connection_manager.rooms()[p].members.len()
                        && connection_manager.rooms()[p].members[q].user_id == user_id;
            }
        }
    }
    false
}

} // verus!
