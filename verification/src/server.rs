//! The server state: the durable store and the connection registry, coupled
//! by one invariant — durability before visibility: every chat frame ever
//! published on a room's broadcast channel corresponds to a message row that
//! is already in the store.

use vstd::prelude::*;

use tokio::sync::broadcast::Receiver;

use crate::errors::ApiError;
use crate::errors::AuthError;
use crate::ext::random_uuid;
use crate::registry::room_listed;
use crate::registry::room_member;
use crate::registry::upsert_member;
use crate::registry::ConnectionManager;
use crate::registry::MemberModel;
use crate::registry::RoomModel;
use crate::store::accepted_member;
use crate::store::has_membership;
use crate::store::invite_match;
use crate::store::ChatInvitation;
use crate::store::ChatRecord;
use crate::store::InvitationStatus;
use crate::store::MembershipRecord;
use crate::store::Message;
use crate::store::Store;
use crate::wire::ChatMessage;
use crate::wire::StatusMessage;
use crate::wire::UserStatus;
use crate::wire::WebSocketMessage;

verus! {

/// A message row carrying exactly what a chat frame announces.
pub open spec fn chat_frame_stored(messages: Seq<Message>, cm: ChatMessage) -> bool {
    exists|i: int|
        0 <= i < messages.len() && messages[i].id == cm.message_id && messages[i].chat_id
            == cm.chat_id && messages[i].sender_id == cm.sender_id && messages[i].message_text@
            == cm.content@ && messages[i].timestamp == cm.timestamp
}

/// A frame is durable when, if it is a chat frame, its message row is stored.
pub open spec fn frame_durable(messages: Seq<Message>, frame: WebSocketMessage) -> bool {
    match frame {
        WebSocketMessage::Chat(cm) => chat_frame_stored(messages, cm),
        _ => true,
    }
}

/// Durability before visibility: everything ever published on any room's
/// broadcast channel is durable against the store.
pub open spec fn durable_before_visible(registry: &ConnectionManager, store: &Store) -> bool {
    forall|c: u128, i: int|
        0 <= i < registry.log(c).len() ==> frame_durable(
            store.messages@,
            #[trigger] registry.log(c)[i],
        )
}

/// Inserting a message row keeps every durable frame durable.
proof fn lemma_frame_durable_insert(
    messages: Seq<Message>,
    k: int,
    msg: Message,
    frame: WebSocketMessage,
)
    requires
        0 <= k <= messages.len(),
        frame_durable(messages, frame),
    ensures
        frame_durable(messages.insert(k, msg), frame),
{
    match frame {
        WebSocketMessage::Chat(cm) => {
            let i = choose|i: int|
                0 <= i < messages.len() && messages[i].id == cm.message_id && messages[i].chat_id
                    == cm.chat_id && messages[i].sender_id == cm.sender_id
                    && messages[i].message_text@ == cm.content@ && messages[i].timestamp
                    == cm.timestamp;
            messages.insert_ensures(k, msg);
            if i < k {
                assert(messages.insert(k, msg)[i] == messages[i]);
            } else {
                assert(messages.insert(k, msg)[i + 1] == messages[i]);
            }
        },
        _ => {},
    }
}

/// Cross-tier authorization: a member session may be listed under a room
/// only while the store holds an accepted membership row for that pair.
pub open spec fn connections_authorized(registry: &ConnectionManager, store: &Store) -> bool {
    forall|c: u128, u: u128|
        #[trigger] room_member(registry.rooms(), c, u) ==> accepted_member(
            store.chat_members@,
            c,
            u,
        )
}

/// After a join, every listed member pair is an old pair or the joined one.
proof fn lemma_pairs_after_join(
    rooms0: Seq<RoomModel>,
    rooms1: Seq<RoomModel>,
    chat_id: u128,
    user_id: u128,
    m: MemberModel,
)
    requires
        m.user_id == user_id,
        (!room_listed(rooms0, chat_id) && rooms1 == rooms0.push(
            RoomModel { chat_id, members: seq![m] },
        )) || (exists|i: int|
            0 <= i < rooms0.len() && rooms0[i].chat_id == chat_id && rooms1 == rooms0.update(
                i,
                RoomModel { chat_id, members: upsert_member(rooms0[i].members, m) },
            )),
    ensures
        forall|c: u128, u: u128|
            #[trigger] room_member(rooms1, c, u) ==> room_member(rooms0, c, u) || (c == chat_id
                && u == user_id),
{
    assert forall|c: u128, u: u128|
        #[trigger] room_member(rooms1, c, u) implies room_member(rooms0, c, u) || (c == chat_id
        && u == user_id) by {
        let (p, q) = choose|p: int, q: int|
            0 <= p < rooms1.len() && rooms1[p].chat_id == c && 0 <= q < rooms1[p].members.len()
                && rooms1[p].members[q].user_id == u;
        if !room_listed(rooms0, chat_id) {
            if p < rooms0.len() {
                assert(rooms1[p] == rooms0[p]);
                assert(room_member(rooms0, c, u));
            } else {
                assert(rooms1[p].members =~= seq![m]);
            }
        } else {
            let i = choose|i: int|
                0 <= i < rooms0.len() && rooms0[i].chat_id == chat_id && rooms1 == rooms0.update(
                    i,
                    RoomModel { chat_id, members: upsert_member(rooms0[i].members, m) },
                );
            if p != i {
                assert(rooms1[p] == rooms0[p]);
                assert(room_member(rooms0, c, u));
            } else {
                let members0 = rooms0[i].members;
                if exists|j: int| 0 <= j < members0.len() && members0[j].user_id == m.user_id {
                    assert(rooms1[p].members[q] == if members0[q].user_id == m.user_id {
                        m
                    } else {
                        members0[q]
                    });
                    if members0[q].user_id != m.user_id {
                        assert(rooms0[i].members[q].user_id == u);
                        assert(room_member(rooms0, c, u));
                    }
                } else {
                    if q < members0.len() {
                        assert(rooms1[p].members[q] == members0[q]);
                        assert(room_member(rooms0, c, u));
                    } else {
                        assert(rooms1[p].members[q] == m);
                    }
                }
            }
        }
    }
}

/// The whole server: durable rows and live connections.
pub struct AppState {
    pub store: Store,
    pub connections: ConnectionManager,
}

impl AppState {
    /// Both halves well-formed, and nothing visible that is not durable.
    pub open spec fn wf(&self) -> bool {
        &&& self.store.wf()
        &&& self.connections.wf()
        &&& durable_before_visible(&self.connections, &self.store)
        &&& connections_authorized(&self.connections, &self.store)
    }

    /// A fresh server with no rows and no connections.
    pub fn new() -> (r: Self)
        ensures
            r.wf(),
            r.store.users@ =~= Seq::<crate::store::UserRecord>::empty(),
            r.store.chats@ =~= Seq::<ChatRecord>::empty(),
            r.store.messages@ =~= Seq::<Message>::empty(),
            r.connections.rooms() =~= Seq::<crate::registry::RoomModel>::empty(),
    {
        let state = AppState { store: Store::new(), connections: ConnectionManager::new() };
        proof {
            assert forall|c: u128, i: int|
                0 <= i < state.connections.log(c).len() implies frame_durable(
                state.store.messages@,
                #[trigger] state.connections.log(c)[i],
            ) by {
                assert(state.connections.log(c).len() == 0);
            }
            assert forall|c: u128, u: u128|
                #[trigger] room_member(state.connections.rooms(), c, u) implies accepted_member(
                state.store.chat_members@,
                c,
                u,
            ) by {
                assert(state.connections.rooms().len() == 0);
            }
        }
        state
    }

    /// Persists a message and then broadcasts it: the sender must hold an
    /// accepted membership; the row is committed to the store before the
    /// chat frame reaches the room's channel, so delivery implies
    /// durability. Without a live room the broadcast is a no-op.
    pub fn send_message(
        &mut self,
        chat_id: u128,
        sender_id: u128,
        message_text: String,
        now: u64,
    ) -> (r: Result<Message, ApiError>)
        requires
            old(self).wf(),
        ensures
            final(self).wf(),
            r is Err <==> !accepted_member(old(self).store.chat_members@, chat_id, sender_id),
            r is Err ==> r == Err::<Message, ApiError>(ApiError::Forbidden) && *final(self) == *old(self),
            r matches Ok(m) ==> m.chat_id == chat_id && m.sender_id == sender_id
                && m.message_text@ == message_text@ && m.timestamp == now && final(self).store.messages@.contains(m) && (exists|k: int|
                0 <= k <= old(self).store.messages@.len() && final(self).store.messages@ == old(self).store.messages@.insert(k, m)),
            r matches Ok(m) ==> (room_listed(old(self).connections.rooms(), chat_id) ==> final(self).connections.log(chat_id) == old(self).connections.log(chat_id).push(
                WebSocketMessage::Chat(
                    ChatMessage {
                        message_id: m.id,
                        chat_id,
                        sender_id,
                        content: m.message_text,
                        timestamp: now,
                    },
                ),
            )),
            r is Ok && !room_listed(old(self).connections.rooms(), chat_id) ==> final(self).connections.log(chat_id) == old(self).connections.log(chat_id),
            forall|c: u128|
                c != chat_id ==> final(self).connections.log(c) == old(self).connections.log(c),
            final(self).connections.rooms() == old(self).connections.rooms(),
            final(self).connections.online() == old(self).connections.online(),
            final(self).store.users@ == old(self).store.users@,
            final(self).store.chats@ == old(self).store.chats@,
            final(self).store.chat_members@ == old(self).store.chat_members@,
            final(self).store.invites@ == old(self).store.invites@,
            final(self).store.sessions@ == old(self).store.sessions@,
    {
        if !self.store.is_member(chat_id, sender_id) {
            return Err(ApiError::Forbidden);
        }
        let id = random_uuid();
        let msg = Message { id, chat_id, sender_id, message_text, timestamp: now };
        let frame = WebSocketMessage::Chat(
            ChatMessage {
                message_id: id,
                chat_id,
                sender_id,
                content: msg.message_text.clone(),
                timestamp: now,
            },
        );
        let stored = msg.duplicate();
        let ghost msgs_old = self.store.messages@;
        self.store.insert_message(stored);
        let ghost msgs_new = self.store.messages@;
        proof {
            let k = choose|k: int|
                0 <= k <= msgs_old.len() && msgs_new == msgs_old.insert(k, stored);
            assert forall|c: u128, i: int|
                0 <= i < self.connections.log(c).len() implies frame_durable(
                msgs_new,
                #[trigger] self.connections.log(c)[i],
            ) by {
                assert(frame_durable(msgs_old, self.connections.log(c)[i]));
                lemma_frame_durable_insert(msgs_old, k, stored, self.connections.log(c)[i]);
            }
        }
        self.connections.broadcast_to_chat(chat_id, sender_id, frame);
        proof {
            assert(frame_durable(msgs_new, frame)) by {
                assert(msgs_new.contains(stored));
                let i = choose|i: int| 0 <= i < msgs_new.len() && msgs_new[i] == stored;
                assert(msgs_new[i].id == msg.id);
            }
            assert forall|c: u128, i: int|
                0 <= i < self.connections.log(c).len() implies frame_durable(
                msgs_new,
                #[trigger] self.connections.log(c)[i],
            ) by {
                if c == chat_id && room_listed(old(self).connections.rooms(), chat_id) && i
                    == self.connections.log(c).len() - 1 {
                    assert(self.connections.log(c)[i] == frame);
                }
            }
        }
        Ok(msg)
    }
}

impl AppState {
    /// Settles an invitation. On acceptance, in one step against the store,
    /// the invite row turns accepted and an accepted membership row exists
    /// for (chat, invitee); afterwards the room is seeded with the user and
    /// a Joined status is broadcast to it.
    pub fn respond_to_invitation(
        &mut self,
        invitation_id: u128,
        user_id: u128,
        accept: bool,
        now: u64,
    ) -> (r: Result<ChatInvitation, ApiError>)
        requires
            old(self).wf(),
        ensures
            final(self).wf(),
            r == Err::<ChatInvitation, ApiError>(ApiError::NotFound) <==> (forall|i: int|
                0 <= i < old(self).store.invites@.len() ==> !invite_match(
                    old(self).store.invites@[i],
                    invitation_id,
                    user_id,
                )),
            r is Ok <==> exists|k: int|
                0 <= k < old(self).store.invites@.len() && invite_match(
                    old(self).store.invites@[k],
                    invitation_id,
                    user_id,
                ) && (forall|j: int|
                    0 <= j < k ==> !invite_match(old(self).store.invites@[j], invitation_id, user_id))
                    && old(self).store.invites@[k].status == InvitationStatus::Pending,
            r matches Err(e) ==> (e == ApiError::NotFound || e == ApiError::Conflict) && final(self).store.invites@ == old(self).store.invites@ && final(self).store.chat_members@ == old(self).store.chat_members@ && final(self).connections.rooms() == old(self).connections.rooms(),
            r is Err ==> forall|c: u128| final(self).connections.log(c) == old(self).connections.log(c),
            !accept ==> forall|c: u128| final(self).connections.log(c) == old(self).connections.log(c),
            r matches Ok(inv) ==> exists|k: int|
                0 <= k < old(self).store.invites@.len() && invite_match(
                    old(self).store.invites@[k],
                    invitation_id,
                    user_id,
                ) && old(self).store.invites@[k].status == InvitationStatus::Pending && inv == (
                ChatInvitation {
                    status: if accept {
                        InvitationStatus::Accepted
                    } else {
                        InvitationStatus::Rejected
                    },
                    updated_at: now,
                    ..old(self).store.invites@[k]
                }) && final(self).store.invites@ == old(self).store.invites@.update(k, inv),
            accept ==> (r matches Ok(inv) ==> inv.status == InvitationStatus::Accepted
                && accepted_member(final(self).store.chat_members@, inv.chat_id, user_id)
                && room_member(final(self).connections.rooms(), inv.chat_id, user_id) && final(self).connections.log(inv.chat_id) == old(self).connections.log(inv.chat_id).push(
                WebSocketMessage::Status(
                    StatusMessage {
                        chat_id: inv.chat_id,
                        user_id,
                        status: UserStatus::Joined,
                        timestamp: now,
                    },
                ),
            )),
            !accept ==> (r matches Ok(inv) ==> inv.status == InvitationStatus::Rejected
                && final(self).store.chat_members@ == old(self).store.chat_members@
                && final(self).connections.rooms() == old(self).connections.rooms()),
            final(self).store.users@ == old(self).store.users@,
            final(self).store.chats@ == old(self).store.chats@,
            final(self).store.messages@ == old(self).store.messages@,
            final(self).store.sessions@ == old(self).store.sessions@,
            final(self).connections.online() == old(self).connections.online(),
    {
        let inv = match self.store.update_invitation_status(invitation_id, user_id, accept, now) {
            Ok(inv) => inv,
            Err(e) => {
                return Err(e);
            },
        };
        if accept {
            self.store.insert_user_to_chat(inv.chat_id, user_id);
            let _seed = self.connections.add_user_to_chat(inv.chat_id, user_id, now);
            let frame = WebSocketMessage::Status(
                StatusMessage {
                    chat_id: inv.chat_id,
                    user_id,
                    status: UserStatus::Joined,
                    timestamp: now,
                },
            );
            proof {
                assert(room_member(self.connections.rooms(), inv.chat_id, user_id));
                assert(room_listed(self.connections.rooms(), inv.chat_id)) by {
                    let (p, q) = choose|p: int, q: int|
                        0 <= p < self.connections.rooms().len()
                            && self.connections.rooms()[p].chat_id == inv.chat_id && 0 <= q
                            < self.connections.rooms()[p].members.len()
                            && self.connections.rooms()[p].members[q].user_id == user_id;
                    assert(self.connections.rooms()[p].chat_id == inv.chat_id);
                }
            }
            self.connections.broadcast_to_chat(inv.chat_id, user_id, frame);
            proof {
                assert forall|c: u128, i: int|
                    0 <= i < self.connections.log(c).len() implies frame_durable(
                    self.store.messages@,
                    #[trigger] self.connections.log(c)[i],
                ) by {
                    if c == inv.chat_id && i == self.connections.log(c).len() - 1 {
                        assert(self.connections.log(c)[i] == frame);
                    } else {
                        assert(self.connections.log(c)[i] == old(self).connections.log(c)[i]);
                    }
                }
                let members0 = old(self).store.chat_members@;
                let members1 = self.store.chat_members@;
                assert forall|c2: u128, u2: u128|
                    accepted_member(members0, c2, u2) implies accepted_member(members1, c2, u2) by {
                    let mth = choose|mm: int|
                        0 <= mm < members0.len() && members0[mm].chat_id == c2
                            && members0[mm].user_id == u2 && members0[mm].status
                            == crate::store::MembershipStatus::Accepted;
                    if has_membership(members0, inv.chat_id, user_id) {
                        let k = choose|k: int|
                            0 <= k < members0.len() && members0[k].chat_id == inv.chat_id
                                && members0[k].user_id == user_id && members1 == members0.update(
                                k,
                                MembershipRecord {
                                    chat_id: inv.chat_id,
                                    user_id,
                                    status: crate::store::MembershipStatus::Accepted,
                                    is_creator: members0[k].is_creator,
                                },
                            );
                        if mth == k {
                            assert(members1[k].status == crate::store::MembershipStatus::Accepted);
                        } else {
                            assert(members1[mth] == members0[mth]);
                        }
                    } else {
                        assert(members1[mth] == members0[mth]);
                    }
                }
                lemma_pairs_after_join(
                    old(self).connections.rooms(),
                    self.connections.rooms(),
                    inv.chat_id,
                    user_id,
                    MemberModel { user_id, status: UserStatus::Online, last_activity: now },
                );
                assert forall|c2: u128, u2: u128|
                    #[trigger] room_member(self.connections.rooms(), c2, u2) implies accepted_member(
                    members1,
                    c2,
                    u2,
                ) by {
                    if room_member(old(self).connections.rooms(), c2, u2) {
                        assert(accepted_member(members0, c2, u2));
                    } else {
                        assert(c2 == inv.chat_id && u2 == user_id);
                    }
                }
            }
        }
        Ok(inv)
    }

    /// Invites a user into a chat: the invitee must exist and must not
    /// already hold a membership row; a pending invite row is inserted.
    /// If the invitee is online, an invitation frame is pushed over their
    /// direct channel, best effort: a failed push does not fail the call.
    pub fn send_invitation(
        &mut self,
        chat_id: u128,
        inviter_id: u128,
        invitee_username: &String,
        now: u64,
    ) -> (r: Result<u128, ApiError>)
        requires
            old(self).wf(),
        ensures
            final(self).wf(),
            r == Err::<u128, ApiError>(ApiError::NotFound) <==> !crate::store::username_taken(
                old(self).store.users@,
                invitee_username@,
            ),
            r == Err::<u128, ApiError>(ApiError::Conflict) <==> (exists|i: int|
                0 <= i < old(self).store.users@.len() && old(self).store.users@[i].username@
                    == invitee_username@ && has_membership(
                    old(self).store.chat_members@,
                    chat_id,
                    old(self).store.users@[i].id,
                )),
            r matches Err(e) ==> (e == ApiError::NotFound || e == ApiError::Conflict) && final(self).store.invites@ == old(self).store.invites@,
            r matches Ok(invite_id) ==> exists|i: int|
                0 <= i < old(self).store.users@.len() && old(self).store.users@[i].username@
                    == invitee_username@ && !has_membership(
                    old(self).store.chat_members@,
                    chat_id,
                    old(self).store.users@[i].id,
                ) && final(self).store.invites@ == old(self).store.invites@.push(
                    ChatInvitation {
                        id: invite_id,
                        chat_id,
                        inviter_id,
                        invitee_id: old(self).store.users@[i].id,
                        status: InvitationStatus::Pending,
                        created_at: now,
                        updated_at: now,
                    },
                ),
            final(self).store.users@ == old(self).store.users@,
            final(self).store.chats@ == old(self).store.chats@,
            final(self).store.chat_members@ == old(self).store.chat_members@,
            final(self).store.messages@ == old(self).store.messages@,
            final(self).store.sessions@ == old(self).store.sessions@,
            final(self).connections == old(self).connections,
    {
        let invitee_id = match self.store.get_user_id_by_username(invitee_username) {
            Some(u) => u,
            None => {
                return Err(ApiError::NotFound);
            },
        };
        let ghost iu = choose|i: int|
            0 <= i < self.store.users@.len() && self.store.users@[i].username@
                == invitee_username@ && self.store.users@[i].id == invitee_id;
        if self.store.check_user_membership(chat_id, invitee_id) {
            proof {
                assert(invite_target_conflicts(&self.store, chat_id, invitee_username@));
            }
            return Err(ApiError::Conflict);
        }
        proof {
            assert(!invite_target_conflicts(&self.store, chat_id, invitee_username@)) by {
                if invite_target_conflicts(&self.store, chat_id, invitee_username@) {
                    let j = choose|j: int|
                        0 <= j < self.store.users@.len() && self.store.users@[j].username@
                            == invitee_username@ && has_membership(
                            self.store.chat_members@,
                            chat_id,
                            self.store.users@[j].id,
                        );
                    if iu < j {
                        crate::store::lemma_usernames_unique_pair(self.store.users@, iu, j);
                    } else if j < iu {
                        crate::store::lemma_usernames_unique_pair(self.store.users@, j, iu);
                    }
                }
            }
        }
        let invite_id = random_uuid();
        let _row = self.store.send_invitation(chat_id, inviter_id, invitee_id, invite_id, now);
        match self.connections.get_online_user(invitee_username) {
            Some(online) => {
                let inviter_username = match self.store.get_username(inviter_id) {
                    Some(n) => n,
                    None => String::new(),
                };
                let note = WebSocketMessage::Invitation(
                    crate::wire::InvitationNotification {
                        invitation_id: invite_id,
                        chat_id,
                        inviter_username,
                        timestamp: now,
                    },
                );
                let _pushed = self.connections.send_direct_message(online.id, note);
            },
            None => {},
        }
        Ok(invite_id)
    }

    /// Authorizes and opens a streaming session on a room: the membership
    /// gate refuses a user without an accepted membership row before any
    /// room state is touched; on success the user joins the room and an
    /// Online status is broadcast to it.
    pub fn open_stream(&mut self, token: &String, secret: &[u8], chat_id: u128, now: u64) -> (r:
        Result<(u128, Receiver<WebSocketMessage>), AuthError>)
        requires
            old(self).wf(),
        ensures
            final(self).wf(),
            r is Err ==> *final(self) == *old(self),
            r matches Err(e) ==> e == AuthError::InvalidToken || e == AuthError::SessionExpired
                || e == AuthError::AccessDenied,
            r == Err::<(u128, Receiver<WebSocketMessage>), AuthError>(AuthError::InvalidToken)
                <==> crate::auth::token_user_spec(token@, secret@, now) is None,
            r == Err::<(u128, Receiver<WebSocketMessage>), AuthError>(AuthError::SessionExpired)
                <==> (crate::auth::token_user_spec(token@, secret@, now) is Some && (forall|u: u128|
                !crate::store::live_session(old(self).store.sessions@, token@, now, u))),
            r == Err::<(u128, Receiver<WebSocketMessage>), AuthError>(AuthError::AccessDenied)
                <==> (crate::auth::token_user_spec(token@, secret@, now) is Some && (exists|u: u128|
                crate::store::live_session(old(self).store.sessions@, token@, now, u)
                    && !accepted_member(old(self).store.chat_members@, chat_id, u))),
            r matches Ok(s) ==> accepted_member(old(self).store.chat_members@, chat_id, s.0)
                && crate::store::live_session(old(self).store.sessions@, token@, now, s.0)
                && room_member(final(self).connections.rooms(), chat_id, s.0) && final(self).connections.log(chat_id) == old(self).connections.log(chat_id).push(
                WebSocketMessage::Status(
                    StatusMessage {
                        chat_id,
                        user_id: s.0,
                        status: UserStatus::Online,
                        timestamp: now,
                    },
                ),
            ),
            r matches Ok(s) ==> (!room_listed(old(self).connections.rooms(), chat_id) ==> final(self).connections.rooms() == old(self).connections.rooms().push(
                RoomModel {
                    chat_id,
                    members: seq![
                        MemberModel { user_id: s.0, status: UserStatus::Online, last_activity: now },
                    ],
                },
            )),
            r matches Ok(s) ==> (room_listed(old(self).connections.rooms(), chat_id) ==> exists|i: int|
                0 <= i < old(self).connections.rooms().len() && old(self).connections.rooms()[i].chat_id == chat_id
                    && final(self).connections.rooms() == old(self).connections.rooms().update(
                    i,
                    RoomModel {
                        chat_id,
                        members: upsert_member(
                            old(self).connections.rooms()[i].members,
                            MemberModel { user_id: s.0, status: UserStatus::Online, last_activity: now },
                        ),
                    },
                )),
            final(self).store.users@ == old(self).store.users@,
            final(self).store.messages@ == old(self).store.messages@,
            final(self).store.chat_members@ == old(self).store.chat_members@,
            final(self).store.sessions@ == old(self).store.sessions@,
    {
        let user_id = match crate::auth::authorize_stream(&self.store, token, secret, chat_id, now) {
            Ok(u) => u,
            Err(e) => {
                return Err(e);
            },
        };
        let rx = self.connections.add_user_to_chat(chat_id, user_id, now);
        let frame = WebSocketMessage::Status(
            StatusMessage { chat_id, user_id, status: UserStatus::Online, timestamp: now },
        );
        proof {
            assert(room_member(self.connections.rooms(), chat_id, user_id));
            assert(room_listed(self.connections.rooms(), chat_id)) by {
                let (p, q) = choose|p: int, q: int|
                    0 <= p < self.connections.rooms().len() && self.connections.rooms()[p].chat_id
                        == chat_id && 0 <= q < self.connections.rooms()[p].members.len()
                        && self.connections.rooms()[p].members[q].user_id == user_id;
                assert(self.connections.rooms()[p].chat_id == chat_id);
            }
        }
        self.connections.broadcast_to_chat(chat_id, user_id, frame);
        proof {
            assert forall|c: u128, i: int|
                0 <= i < self.connections.log(c).len() implies frame_durable(
                self.store.messages@,
                #[trigger] self.connections.log(c)[i],
            ) by {
                if c == chat_id && i == self.connections.log(c).len() - 1 {
                    assert(self.connections.log(c)[i] == frame);
                } else {
                    assert(self.connections.log(c)[i] == old(self).connections.log(c)[i]);
                }
            }
            lemma_pairs_after_join(
                old(self).connections.rooms(),
                self.connections.rooms(),
                chat_id,
                user_id,
                MemberModel { user_id, status: UserStatus::Online, last_activity: now },
            );
            assert forall|c2: u128, u2: u128|
                #[trigger] room_member(self.connections.rooms(), c2, u2) implies accepted_member(
                self.store.chat_members@,
                c2,
                u2,
            ) by {
                if !room_member(old(self).connections.rooms(), c2, u2) {
                    assert(c2 == chat_id && u2 == user_id);
                }
            }
        }
        Ok((user_id, rx))
    }

    /// Tears a streaming session down: marks the member offline, then
    /// removes the member session, dropping the room if it was the last one.
    /// Running this again for the same (room, user) changes nothing.
    pub fn close_stream(&mut self, chat_id: u128, user_id: u128, now: u64)
        requires
            old(self).wf(),
        ensures
            final(self).wf(),
            !room_member(final(self).connections.rooms(), chat_id, user_id),
            !room_member(old(self).connections.rooms(), chat_id, user_id) ==> *final(self) == *old(self),
            final(self).store == old(self).store,
            final(self).connections.online() == old(self).connections.online(),
            forall|c: u128| final(self).connections.log(c) == old(self).connections.log(c),
    {
        let ghost rooms0 = self.connections.rooms();
        self.connections.update_user_status(chat_id, user_id, UserStatus::Offline, now);
        let ghost rooms_mid = self.connections.rooms();
        self.connections.remove_user_from_chat(chat_id, user_id);
        proof {
            assert forall|c: u128, i: int|
                0 <= i < self.connections.log(c).len() implies frame_durable(
                self.store.messages@,
                #[trigger] self.connections.log(c)[i],
            ) by {
                assert(self.connections.log(c) == old(self).connections.log(c));
            }
            assert forall|c2: u128, u2: u128|
                #[trigger] room_member(self.connections.rooms(), c2, u2) implies accepted_member(
                self.store.chat_members@,
                c2,
                u2,
            ) by {
                let rooms2 = self.connections.rooms();
                let (p, q) = choose|p: int, q: int|
                    0 <= p < rooms2.len() && rooms2[p].chat_id == c2 && 0 <= q
                        < rooms2[p].members.len() && rooms2[p].members[q].user_id == u2;
                assert(room_member(rooms_mid, c2, u2)) by {
                    if room_member(rooms_mid, chat_id, user_id) {
                        let (i, j) = choose|i: int, j: int|
                            0 <= i < rooms_mid.len() && rooms_mid[i].chat_id == chat_id && 0 <= j
                                < rooms_mid[i].members.len() && rooms_mid[i].members[j].user_id
                                == user_id && rooms2 == (if rooms_mid[i].members.len() == 1 {
                                rooms_mid.remove(i)
                            } else {
                                rooms_mid.update(
                                    i,
                                    RoomModel {
                                        chat_id,
                                        members: rooms_mid[i].members.remove(j),
                                    },
                                )
                            });
                        if rooms_mid[i].members.len() == 1 {
                            rooms_mid.remove_ensures(i);
                            let p0 = if p < i {
                                p
                            } else {
                                p + 1
                            };
                            assert(rooms2[p] == rooms_mid[p0]);
                        } else {
                            if p != i {
                                assert(rooms2[p] == rooms_mid[p]);
                            } else {
                                rooms_mid[i].members.remove_ensures(j);
                                let q0 = if q < j {
                                    q
                                } else {
                                    q + 1
                                };
                                assert(rooms2[p].members[q] == rooms_mid[i].members[q0]);
                            }
                        }
                    } else {
                        assert(rooms2 == rooms_mid);
                    }
                }
                assert(room_member(rooms0, c2, u2)) by {
                    let (p1, q1) = choose|p1: int, q1: int|
                        0 <= p1 < rooms_mid.len() && rooms_mid[p1].chat_id == c2 && 0 <= q1
                            < rooms_mid[p1].members.len() && rooms_mid[p1].members[q1].user_id
                            == u2;
                    if room_member(rooms0, chat_id, user_id) {
                        let (i, j) = choose|i: int, j: int|
                            0 <= i < rooms0.len() && rooms0[i].chat_id == chat_id && 0 <= j
                                < rooms0[i].members.len() && rooms0[i].members[j].user_id
                                == user_id && rooms_mid == rooms0.update(
                                i,
                                RoomModel {
                                    chat_id,
                                    members: rooms0[i].members.update(
                                        j,
                                        MemberModel {
                                            user_id,
                                            status: UserStatus::Offline,
                                            last_activity: now,
                                        },
                                    ),
                                },
                            );
                        if p1 != i {
                            assert(rooms_mid[p1] == rooms0[p1]);
                        } else {
                            if q1 == j {
                                assert(rooms0[i].members[j].user_id == u2);
                            } else {
                                assert(rooms_mid[p1].members[q1] == rooms0[i].members[q1]);
                            }
                        }
                    } else {
                        assert(rooms_mid == rooms0);
                    }
                }
            }
        }
    }
}

impl AppState {
    /// Creates a chat: validates the optional name (1 to 50 characters;
    /// "Default Chat" when omitted), inserts the chat row and the creator's
    /// accepted membership, then sends one invitation per listed username.
    /// Invitation failures do not fail chat creation: every invitee that
    /// resolves to a user without a membership row still gets a pending
    /// invite.
    #[verifier::rlimit(100)]
    pub fn create_chat(
        &mut self,
        creator_id: u128,
        name: Option<String>,
        invitees: &Vec<String>,
        now: u64,
    ) -> (r: Result<ChatRecord, ApiError>)
        requires
            old(self).wf(),
        ensures
            final(self).wf(),
            r == Err::<ChatRecord, ApiError>(ApiError::Validation) <==> (name matches Some(n)
                && !(1 <= n@.len() <= 50)),
            r matches Err(e) ==> (e == ApiError::Validation || e == ApiError::Internal) && *final(self) == *old(self),
            r matches Ok(chat) ==> {
                &&& (match name {
                    Some(n) => chat.name@ == n@ && 1 <= n@.len() <= 50,
                    None => chat.name@ == "Default Chat"@,
                })
                &&& final(self).store.chats@ == old(self).store.chats@.push(chat)
                &&& final(self).store.chat_members@ == old(self).store.chat_members@.push(
                    MembershipRecord {
                        chat_id: chat.id,
                        user_id: creator_id,
                        status: crate::store::MembershipStatus::Accepted,
                        is_creator: true,
                    },
                )
                &&& accepted_member(final(self).store.chat_members@, chat.id, creator_id)
                &&& old(self).store.invites@.is_prefix_of(final(self).store.invites@)
                &&& invites_extension_ok(
                    final(self).store.invites@,
                    old(self).store.invites@.len() as int,
                    chat.id,
                    creator_id,
                    now,
                )
                &&& invitees_covered(
                    final(self).store.invites@,
                    old(self).store.invites@.len() as int,
                    old(self).store.users@,
                    final(self).store.chat_members@,
                    chat.id,
                    invitees@,
                    invitees@.len() as int,
                )
                &&& invites_from_listed(
                    final(self).store.invites@,
                    old(self).store.invites@.len() as int,
                    old(self).store.users@,
                    invitees@,
                )
                &&& final(self).store.invites@.len() <= old(self).store.invites@.len()
                    + invitees@.len()
            },
            final(self).store.users@ == old(self).store.users@,
            final(self).store.messages@ == old(self).store.messages@,
            final(self).store.sessions@ == old(self).store.sessions@,
            final(self).connections == old(self).connections,
    {
        let name_val = match name {
            Some(n) => {
                let len = n.as_str().unicode_len();
                if len < 1 || len > 50 {
                    return Err(ApiError::Validation);
                }
                n
            },
            None => String::from_str("Default Chat"),
        };
        let chat_id = random_uuid();
        if self.store.check_user_membership(chat_id, creator_id) {
            return Err(ApiError::Internal);
        }
        match self.store.add_chat_member(chat_id, creator_id) {
            Ok(_) => {},
            Err(_) => {
                // a membership row for the fresh chat id was ruled out just above
                proof {
                    assert(false);
                }
                return Err(ApiError::Internal);
            },
        }
        let chat = ChatRecord { id: chat_id, name: name_val };
        self.store.create_chat(chat_id, chat.name.clone());
        proof {
            assert forall|c2: u128, u2: u128|
                #[trigger] room_member(self.connections.rooms(), c2, u2) implies accepted_member(
                self.store.chat_members@,
                c2,
                u2,
            ) by {
                assert(room_member(old(self).connections.rooms(), c2, u2));
                let mth = choose|mm: int|
                    0 <= mm < old(self).store.chat_members@.len()
                        && old(self).store.chat_members@[mm].chat_id == c2
                        && old(self).store.chat_members@[mm].user_id == u2
                        && old(self).store.chat_members@[mm].status
                        == crate::store::MembershipStatus::Accepted;
                assert(self.store.chat_members@[mth] == old(self).store.chat_members@[mth]);
            }
        }
        let ghost users0 = self.store.users@;
        let ghost chats1 = self.store.chats@;
        let ghost members1 = self.store.chat_members@;
        let ghost msgs0 = self.store.messages@;
        let ghost sess0 = self.store.sessions@;
        let ghost inv1 = self.store.invites@;
        let ghost conns0 = self.connections;
        let count = invitees.len();
        let mut w: usize = 0;
        while w < count
            invariant
                self.wf(),
                count == invitees@.len(),
                0 <= w <= count,
                self.store.users@ == users0,
                self.store.chats@ == chats1,
                self.store.chat_members@ == members1,
                self.store.messages@ == msgs0,
                self.store.sessions@ == sess0,
                self.connections == conns0,
                inv1.is_prefix_of(self.store.invites@),
                invites_extension_ok(self.store.invites@, inv1.len() as int, chat_id, creator_id, now),
                invitees_covered(self.store.invites@, inv1.len() as int, users0, members1, chat_id, invitees@, w as int),
                invites_from_listed(self.store.invites@, inv1.len() as int, users0, invitees@),
                self.store.invites@.len() <= inv1.len() + w,
            decreases count - w,
        {
            let ghost inv_before = self.store.invites@;
            proof {
                assert(invites_extension_ok(inv_before, inv1.len() as int, chat_id, creator_id, now));
                assert(invitees_covered(inv_before, inv1.len() as int, users0, members1, chat_id, invitees@, w as int));
                assert(invites_from_listed(inv_before, inv1.len() as int, users0, invitees@));
            }
            let sent = self.send_invitation(chat_id, creator_id, &invitees[w], now);
            proof {
                assert(inv1.is_prefix_of(self.store.invites@)) by {
                    if sent is Ok {
                        assert(self.store.invites@.take(inv1.len() as int)
                            =~= inv_before.take(inv1.len() as int));
                    }
                }
                assert forall|v: int|
                    inv1.len() as int <= v < self.store.invites@.len() implies #[trigger] self.store.invites@[v].chat_id
                    == chat_id && self.store.invites@[v].inviter_id == creator_id
                    && self.store.invites@[v].status == InvitationStatus::Pending
                    && self.store.invites@[v].created_at == now by {
                    if sent is Ok {
                        let i = choose|i: int|
                            0 <= i < users0.len() && users0[i].username@ == invitees@[w as int]@
                                && !has_membership(members1, chat_id, users0[i].id)
                                && self.store.invites@ == inv_before.push(
                                ChatInvitation {
                                    id: sent->Ok_0,
                                    chat_id,
                                    inviter_id: creator_id,
                                    invitee_id: users0[i].id,
                                    status: InvitationStatus::Pending,
                                    created_at: now,
                                    updated_at: now,
                                },
                            );
                        let rec = ChatInvitation {
                            id: sent->Ok_0,
                            chat_id,
                            inviter_id: creator_id,
                            invitee_id: users0[i].id,
                            status: InvitationStatus::Pending,
                            created_at: now,
                            updated_at: now,
                        };
                        assert(self.store.invites@ == inv_before.push(rec));
                        if v < inv_before.len() {
                            assert(inv_before.push(rec)[v] == inv_before[v]);
                            assert(self.store.invites@[v] == inv_before[v]);
                            assert(inv_before[v].chat_id == chat_id);
                        } else {
                            assert(v == inv_before.len());
                            assert(inv_before.push(rec)[v] == rec);
                            assert(self.store.invites@[v] == rec);
                        }
                    } else {
                        assert(self.store.invites@ == inv_before);
                        assert(self.store.invites@[v] == inv_before[v]);
                        assert(inv_before[v].chat_id == chat_id);
                    }
                }
                assert forall|wp: int, iu: int|
                    0 <= wp < w + 1 && 0 <= iu < users0.len() && users0[iu].username@
                        == invitees@[wp]@ && !has_membership(
                        members1,
                        chat_id,
                        users0[iu].id,
                    ) implies exists|v: int|
                    inv1.len() as int <= v < self.store.invites@.len()
                        && #[trigger] self.store.invites@[v].invitee_id == users0[iu].id by {
                    if wp < w {
                        let v0 = choose|v: int|
                            inv1.len() <= v < inv_before.len()
                                && #[trigger] inv_before[v].invitee_id == users0[iu].id;
                        if sent is Ok {
                            let i = choose|i: int|
                                0 <= i < users0.len() && users0[i].username@
                                    == invitees@[w as int]@ && !has_membership(
                                    members1,
                                    chat_id,
                                    users0[i].id,
                                ) && self.store.invites@ == inv_before.push(
                                    ChatInvitation {
                                        id: sent->Ok_0,
                                        chat_id,
                                        inviter_id: creator_id,
                                        invitee_id: users0[i].id,
                                        status: InvitationStatus::Pending,
                                        created_at: now,
                                        updated_at: now,
                                    },
                                );
                            assert(self.store.invites@[v0] == inv_before[v0]);
                        } else {
                            assert(self.store.invites@ == inv_before);
                            assert(self.store.invites@[v0] == inv_before[v0]);
                        }
                        assert(self.store.invites@[v0].invitee_id == users0[iu].id);
                    } else {
                        if sent is Ok {
                            let i = choose|i: int|
                                0 <= i < users0.len() && users0[i].username@
                                    == invitees@[w as int]@ && !has_membership(
                                    members1,
                                    chat_id,
                                    users0[i].id,
                                ) && self.store.invites@ == inv_before.push(
                                    ChatInvitation {
                                        id: sent->Ok_0,
                                        chat_id,
                                        inviter_id: creator_id,
                                        invitee_id: users0[i].id,
                                        status: InvitationStatus::Pending,
                                        created_at: now,
                                        updated_at: now,
                                    },
                                );
                            if iu < i {
                                crate::store::lemma_usernames_unique_pair(users0, iu, i);
                            } else if i < iu {
                                crate::store::lemma_usernames_unique_pair(users0, i, iu);
                            }
                            assert(iu == i);
                            assert(self.store.invites@[inv_before.len() as int].invitee_id
                                == users0[i].id);
                        } else if sent == Err::<u128, ApiError>(ApiError::NotFound) {
                            assert(!crate::store::username_taken(users0, invitees@[w as int]@));
                        } else {
                            assert(sent == Err::<u128, ApiError>(ApiError::Conflict));
                            let j = choose|j: int|
                                0 <= j < users0.len() && users0[j].username@
                                    == invitees@[w as int]@ && has_membership(
                                    members1,
                                    chat_id,
                                    users0[j].id,
                                );
                            if iu < j {
                                crate::store::lemma_usernames_unique_pair(users0, iu, j);
                            } else if j < iu {
                                crate::store::lemma_usernames_unique_pair(users0, j, iu);
                            }
                        }
                    }
                }
            }
            w = w + 1;
        }
        proof {
            assert(self.store.chats@ == old(self).store.chats@.push(chat));
        }
        Ok(chat)
    }
}

impl AppState {
    /// Registers a user against the store; the registry is untouched.
    pub fn register_user(&mut self, payload: &crate::models::RegisterData) -> (r: Result<
        (),
        ApiError,
    >)
        requires
            old(self).wf(),
        ensures
            final(self).wf(),
            !crate::auth::register_payload_valid(payload) ==> r == Err::<(), ApiError>(
                ApiError::Validation,
            ),
            crate::auth::register_payload_valid(payload) && crate::store::username_taken(
                old(self).store.users@,
                payload.username@,
            ) ==> r == Err::<(), ApiError>(ApiError::Conflict),
            crate::auth::register_payload_valid(payload) && !crate::store::username_taken(
                old(self).store.users@,
                payload.username@,
            ) && !(crate::password::validate_spec(8, payload.password@) is Ok) ==> r == Err::<
                (),
                ApiError,
            >(ApiError::Validation),
            crate::auth::register_payload_valid(payload) && !crate::store::username_taken(
                old(self).store.users@,
                payload.username@,
            ) && crate::password::validate_spec(8, payload.password@) is Ok ==> (r is Ok || r
                == Err::<(), ApiError>(ApiError::Internal)),
            r is Err ==> final(self).store.users@ == old(self).store.users@,
            r is Ok ==> final(self).store.users@.len() == old(self).store.users@.len() + 1
                && final(self).store.users@.drop_last() == old(self).store.users@ && final(self).store.users@.last().username@ == payload.username@ && crate::ext::bcrypt_matches(
                payload.password@,
                final(self).store.users@.last().password_hash@,
            ),
            final(self).store.messages@ == old(self).store.messages@,
            final(self).store.sessions@ == old(self).store.sessions@,
            final(self).connections == old(self).connections,
    {
        let r = crate::auth::register_user(&mut self.store, payload);
        proof {
            assert forall|c: u128, i: int|
                0 <= i < self.connections.log(c).len() implies frame_durable(
                self.store.messages@,
                #[trigger] self.connections.log(c)[i],
            ) by {
                assert(frame_durable(old(self).store.messages@, self.connections.log(c)[i]));
            }
        }
        r
    }

    /// Logs a user in against the store; the registry is untouched.
    pub fn login_user(
        &mut self,
        payload: &crate::models::LoginData,
        secret: &[u8],
        now: u64,
    ) -> (r: Result<String, ApiError>)
        requires
            old(self).wf(),
            now + crate::auth::SESSION_LIFETIME <= u64::MAX,
        ensures
            final(self).wf(),
            !crate::auth::login_credentials_ok(
                old(self).store.users@,
                payload.username@,
                payload.password@,
            ) ==> r == Err::<String, ApiError>(ApiError::Unauthorized),
            crate::auth::login_credentials_ok(
                old(self).store.users@,
                payload.username@,
                payload.password@,
            ) ==> (r is Ok || r == Err::<String, ApiError>(ApiError::Internal)),
            crate::auth::login_credentials_ok(
                old(self).store.users@,
                payload.username@,
                payload.password@,
            ) && !crate::auth::token_collision(
                old(self).store.sessions@,
                old(self).store.users@,
                payload.username@,
                secret@,
                now,
            ) ==> r is Ok,
            r is Err ==> final(self).store.sessions@ == old(self).store.sessions@,
            r matches Ok(t) ==> exists|i: int|
                0 <= i < old(self).store.users@.len() && old(self).store.users@[i].username@
                    == payload.username@ && crate::ext::bcrypt_matches(
                    payload.password@,
                    old(self).store.users@[i].password_hash@,
                ) && (forall|at: u64|
                    at < now + crate::auth::TOKEN_LIFETIME ==> crate::auth::token_user_spec(
                        t@,
                        secret@,
                        at,
                    ) == Some(old(self).store.users@[i].id)) && final(self).store.sessions@ == old(self).store.sessions@.push(
                    crate::store::SessionRecord {
                        user_id: old(self).store.users@[i].id,
                        token: t,
                        expires_at: (now + crate::auth::SESSION_LIFETIME) as u64,
                    },
                ),
            final(self).store.users@ == old(self).store.users@,
            final(self).store.messages@ == old(self).store.messages@,
            final(self).connections == old(self).connections,
    {
        let r = crate::auth::login_user(&mut self.store, payload, secret, now);
        proof {
            assert forall|c: u128, i: int|
                0 <= i < self.connections.log(c).len() implies frame_durable(
                self.store.messages@,
                #[trigger] self.connections.log(c)[i],
            ) by {
                assert(frame_durable(old(self).store.messages@, self.connections.log(c)[i]));
            }
        }
        r
    }
}

/// What a streaming session writes back to its client for one frame
/// received on its room subscription.
pub enum OutboundAction {
    /// A chat frame: write its content as a bare text frame.
    SendText(String),
    /// Any other frame: write the full envelope.
    SendEnvelope(WebSocketMessage),
}

/// The outbound step of a streaming session: a chat frame becomes a bare
/// text frame carrying its content; every other frame is forwarded whole.
pub fn outbound_action(frame: WebSocketMessage) -> (r: OutboundAction)
    ensures
        frame matches WebSocketMessage::Chat(cm) ==> r == OutboundAction::SendText(cm.content),
        !(frame matches WebSocketMessage::Chat(_)) ==> r == OutboundAction::SendEnvelope(frame),
{
    match frame {
        WebSocketMessage::Chat(cm) => OutboundAction::SendText(cm.content),
        other => OutboundAction::SendEnvelope(other),
    }
}

/// Every invite row at or past `base` belongs to this chat, comes from this
/// inviter, is pending, and carries this creation time.
pub open spec fn invites_extension_ok(
    invites: Seq<ChatInvitation>,
    base: int,
    chat_id: u128,
    creator_id: u128,
    now: u64,
) -> bool {
    forall|v: int|
        base <= v < invites.len() ==> #[trigger] invites[v].chat_id == chat_id
            && invites[v].inviter_id == creator_id && invites[v].status
            == InvitationStatus::Pending && invites[v].created_at == now
}

/// Every invite row at or past `base` goes to a user resolved from the
/// listed usernames.
pub open spec fn invites_from_listed(
    invites: Seq<ChatInvitation>,
    base: int,
    users: Seq<crate::store::UserRecord>,
    invitees: Seq<String>,
) -> bool {
    forall|v: int|
        base <= v < invites.len() ==> exists|w: int, iu: int|
            0 <= w < invitees.len() && 0 <= iu < users.len() && users[iu].username@
                == invitees[w]@ && #[trigger] invites[v].invitee_id == users[iu].id
}

/// Every listed username before `upto` that resolves to a user without a
/// membership row has an invite at or past `base`.
pub open spec fn invitees_covered(
    invites: Seq<ChatInvitation>,
    base: int,
    users: Seq<crate::store::UserRecord>,
    members: Seq<MembershipRecord>,
    chat_id: u128,
    invitees: Seq<String>,
    upto: int,
) -> bool {
    forall|wp: int, iu: int|
        0 <= wp < upto && 0 <= iu < users.len() && users[iu].username@ == invitees[wp]@
            && !has_membership(members, chat_id, users[iu].id) ==> exists|v: int|
            base <= v < invites.len() && #[trigger] invites[v].invitee_id == users[iu].id
}

/// A username that resolves to a user who already holds a membership row in
/// the chat: the condition under which an invitation is refused as a
/// conflict.
pub open spec fn invite_target_conflicts(store: &Store, chat_id: u128, username: Seq<char>) -> bool {
    exists|i: int|
        0 <= i < store.users@.len() && store.users@[i].username@ == username && has_membership(
            store.chat_members@,
            chat_id,
            store.users@[i].id,
        )
}

/// Cross-tier authorization, as a standing law: in a well-formed server,
/// every member session listed under a room is backed by an accepted
/// membership row in the store.
pub proof fn lemma_connections_authorized(state: &AppState, chat_id: u128, user_id: u128)
    requires
        state.wf(),
        room_member(state.connections.rooms(), chat_id, user_id),
    ensures
        accepted_member(state.store.chat_members@, chat_id, user_id),
{
}

/// Durability before visibility, as a standing law: in a well-formed server,
/// any frame published at any point of any room's broadcast history, if it
/// is a chat frame, is matched by a message row already in the store.
pub proof fn lemma_durable_before_visible(state: &AppState, chat_id: u128, i: int)
    requires
        state.wf(),
        0 <= i < state.connections.log(chat_id).len(),
    ensures
        frame_durable(state.store.messages@, state.connections.log(chat_id)[i]),
{
}

} // verus!
