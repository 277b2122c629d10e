//! The durable records of the system — users, chats, memberships, messages,
//! invites and sessions — held as plain rows with the schema's invariants:
//! usernames are unique, at most one membership row exists per (chat, user),
//! session tokens are unique, and messages are kept ordered by timestamp.

use vstd::prelude::*;

use crate::errors::ApiError;

verus! {

/// A registered user.
#[derive(Debug)]
pub struct UserRecord {
    pub id: u128,
    pub username: String,
    pub email: String,
    pub password_hash: String,
}

/// A chat room's durable identity.
#[derive(Debug)]
pub struct ChatRecord {
    pub id: u128,
    pub name: String,
}

/// The standing of a user inside a chat.
#[derive(Clone, Copy, Debug, PartialEq, Eq, Structural)]
pub enum MembershipStatus {
    Pending,
    Accepted,
    Rejected,
}

/// One membership row per (chat, user).
#[derive(Clone, Copy, Debug)]
pub struct MembershipRecord {
    pub chat_id: u128,
    pub user_id: u128,
    pub status: MembershipStatus,
    pub is_creator: bool,
}

/// A persisted chat message.
#[derive(Debug)]
pub struct Message {
    pub id: u128,
    pub chat_id: u128,
    pub sender_id: u128,
    pub message_text: String,
    pub timestamp: u64,
}

/// The lifecycle of an invitation.
#[derive(Clone, Copy, Debug, PartialEq, Eq, Structural)]
pub enum InvitationStatus {
    Pending,
    Accepted,
    Rejected,
    Expired,
}

/// A proposal to join a chat, from inviter to invitee.
#[derive(Clone, Copy, Debug)]
pub struct ChatInvitation {
    pub id: u128,
    pub chat_id: u128,
    pub inviter_id: u128,
    pub invitee_id: u128,
    pub status: InvitationStatus,
    pub created_at: u64,
    pub updated_at: u64,
}

/// A bearer session; valid while `expires_at` lies in the future.
#[derive(Debug)]
pub struct SessionRecord {
    pub user_id: u128,
    pub token: String,
    pub expires_at: u64,
}

/// No two users share a username.
pub open spec fn usernames_unique(users: Seq<UserRecord>) -> bool {
    forall|i: int, j: int|
        0 <= i < j < users.len() ==> users[i].username@ != users[j].username@
}

/// At most one membership row per (chat, user).
pub open spec fn memberships_unique(rows: Seq<MembershipRecord>) -> bool {
    forall|i: int, j: int|
        0 <= i < j < rows.len() ==> !(rows[i].chat_id == rows[j].chat_id && rows[i].user_id
            == rows[j].user_id)
}

/// No two sessions share a token.
pub open spec fn tokens_unique(rows: Seq<SessionRecord>) -> bool {
    forall|i: int, j: int| 0 <= i < j < rows.len() ==> rows[i].token@ != rows[j].token@
}

/// Messages stand in nondecreasing timestamp order.
pub open spec fn messages_sorted(rows: Seq<Message>) -> bool {
    forall|i: int, j: int| 0 <= i <= j < rows.len() ==> rows[i].timestamp <= rows[j].timestamp
}

/// Some user carries this username.
pub open spec fn username_taken(users: Seq<UserRecord>, name: Seq<char>) -> bool {
    exists|i: int| 0 <= i < users.len() && users[i].username@ == name
}

/// Some membership row exists for (chat, user), whatever its status.
pub open spec fn has_membership(rows: Seq<MembershipRecord>, chat_id: u128, user_id: u128) -> bool {
    exists|i: int|
        0 <= i < rows.len() && rows[i].chat_id == chat_id && rows[i].user_id == user_id
}

/// An accepted membership row exists for (chat, user).
pub open spec fn accepted_member(rows: Seq<MembershipRecord>, chat_id: u128, user_id: u128) -> bool {
    exists|i: int|
        0 <= i < rows.len() && rows[i].chat_id == chat_id && rows[i].user_id == user_id
            && rows[i].status == MembershipStatus::Accepted
}

/// An unexpired session binds this token to this user.
pub open spec fn live_session(rows: Seq<SessionRecord>, token: Seq<char>, now: u64, user_id: u128) -> bool {
    exists|i: int|
        0 <= i < rows.len() && rows[i].token@ == token && rows[i].expires_at > now
            && rows[i].user_id == user_id
}

/// The invite row addressed by respond-to-invitation: its id and its invitee.
pub open spec fn invite_match(inv: ChatInvitation, invitation_id: u128, user_id: u128) -> bool {
    inv.id == invitation_id && inv.invitee_id == user_id
}

/// The messages of one chat, in stored order.
pub open spec fn chat_filter(rows: Seq<Message>, chat_id: u128) -> Seq<Message> {
    rows.filter(|m: Message| m.chat_id == chat_id)
}

impl Message {
    /// A field-for-field copy.
    pub fn duplicate(&self) -> (r: Message)
        ensures
            r == *self,
    {
        Message {
            id: self.id,
            chat_id: self.chat_id,
            sender_id: self.sender_id,
            message_text: self.message_text.clone(),
            timestamp: self.timestamp,
        }
    }
}

/// One step of `chat_filter` over a growing prefix.
proof fn lemma_chat_filter_step(rows: Seq<Message>, chat_id: u128, i: int)
    requires
        0 <= i < rows.len(),
    ensures
        chat_filter(rows.take(i + 1), chat_id) == if rows[i].chat_id == chat_id {
            chat_filter(rows.take(i), chat_id).push(rows[i])
        } else {
            chat_filter(rows.take(i), chat_id)
        },
{
    reveal_with_fuel(Seq::filter, 2);
    assert(rows.take(i + 1).drop_last() =~= rows.take(i));
    assert(rows.take(i + 1).last() == rows[i]);
}

/// Two distinct user rows never carry the same username.
pub(crate) proof fn lemma_usernames_unique_pair(rows: Seq<UserRecord>, a: int, b: int)
    requires
        usernames_unique(rows),
        0 <= a < b < rows.len(),
    ensures
        rows[a].username@ != rows[b].username@,
{
}

/// Two distinct session rows never carry the same token.
proof fn lemma_tokens_unique_pair(rows: Seq<SessionRecord>, a: int, b: int)
    requires
        tokens_unique(rows),
        0 <= a < b < rows.len(),
    ensures
        rows[a].token@ != rows[b].token@,
{
}

/// The whole durable state.
pub struct Store {
    pub users: Vec<UserRecord>,
    pub chats: Vec<ChatRecord>,
    pub chat_members: Vec<MembershipRecord>,
    pub messages: Vec<Message>,
    pub invites: Vec<ChatInvitation>,
    pub sessions: Vec<SessionRecord>,
}

impl Store {
    /// The schema's invariants.
    pub open spec fn wf(&self) -> bool {
        &&& usernames_unique(self.users@)
        &&& memberships_unique(self.chat_members@)
        &&& tokens_unique(self.sessions@)
        &&& messages_sorted(self.messages@)
    }

    /// An empty store.
    pub fn new() -> (r: Self)
        ensures
            r.wf(),
            r.users@ =~= Seq::<UserRecord>::empty(),
            r.chats@ =~= Seq::<ChatRecord>::empty(),
            r.chat_members@ =~= Seq::<MembershipRecord>::empty(),
            r.messages@ =~= Seq::<Message>::empty(),
            r.invites@ =~= Seq::<ChatInvitation>::empty(),
            r.sessions@ =~= Seq::<SessionRecord>::empty(),
    {
        Store {
            users: Vec::new(),
            chats: Vec::new(),
            chat_members: Vec::new(),
            messages: Vec::new(),
            invites: Vec::new(),
            sessions: Vec::new(),
        }
    }

    /// Whether a user already carries this username.
    pub fn check_username_exists(&self, username: &String) -> (r: bool)
        ensures
            r == username_taken(self.users@, username@),
    {
        let n = self.users.len();
        let mut i: usize = 0;
        while i < n
            invariant
                n == self.users@.len(),
                0 <= i <= n,
                forall|j: int| 0 <= j < i ==> self.users@[j].username@ != username@,
            decreases n - i,
        {
            if self.users[i].username == *username {
                return true;
            }
            i = i + 1;
        }
        false
    }

    /// Inserts a user row. The caller has already ruled the username out.
    pub fn create_user(&mut self, id: u128, username: String, email: String, password_hash: String)
        requires
            old(self).wf(),
            !username_taken(old(self).users@, username@),
        ensures
            final(self).wf(),
            final(self).users@ == old(self).users@.push(
                UserRecord { id, username: username, email: email, password_hash: password_hash },
            ),
            final(self).chats@ == old(self).chats@,
            final(self).chat_members@ == old(self).chat_members@,
            final(self).messages@ == old(self).messages@,
            final(self).invites@ == old(self).invites@,
            final(self).sessions@ == old(self).sessions@,
    {
        let ghost before = self.users@;
        self.users.push(UserRecord { id, username, email, password_hash });
        proof {
            assert forall|i: int, j: int|
                0 <= i < j < self.users@.len() implies self.users@[i].username@
                != self.users@[j].username@ by {
                if j < before.len() {
                } else {
                    assert(self.users@[i] == before[i]);
                }
            }
        }
    }

    /// Looks a user's credentials up by username.
    pub fn get_user_credentials(&self, username: &String) -> (r: Option<(u128, String)>)
        requires
            self.wf(),
        ensures
            r is Some == username_taken(self.users@, username@),
            r matches Some(c) ==> exists|i: int|
                0 <= i < self.users@.len() && self.users@[i].username@ == username@
                    && self.users@[i].id == c.0 && self.users@[i].password_hash@ == c.1@,
    {
        let n = self.users.len();
        let mut i: usize = 0;
        while i < n
            invariant
                n == self.users@.len(),
                0 <= i <= n,
                forall|j: int| 0 <= j < i ==> self.users@[j].username@ != username@,
            decreases n - i,
        {
            if self.users[i].username == *username {
                return Some((self.users[i].id, self.users[i].password_hash.clone()));
            }
            i = i + 1;
        }
        None
    }

    /// Resolves a username to the user's identifier.
    pub fn get_user_id_by_username(&self, username: &String) -> (r: Option<u128>)
        requires
            self.wf(),
        ensures
            r is Some == username_taken(self.users@, username@),
            r matches Some(u) ==> exists|i: int|
                0 <= i < self.users@.len() && self.users@[i].username@ == username@
                    && self.users@[i].id == u,
    {
        match self.get_user_credentials(username) {
            Some(c) => Some(c.0),
            None => None,
        }
    }

    /// Resolves a user identifier to its username; the first matching row
    /// answers.
    pub fn get_username(&self, user_id: u128) -> (r: Option<String>)
        ensures
            r is Some == exists|i: int| 0 <= i < self.users@.len() && self.users@[i].id == user_id,
            r matches Some(n) ==> exists|i: int|
                0 <= i < self.users@.len() && self.users@[i].id == user_id
                    && self.users@[i].username@ == n@,
    {
        let count = self.users.len();
        let mut i: usize = 0;
        while i < count
            invariant
                count == self.users@.len(),
                0 <= i <= count,
                forall|j: int| 0 <= j < i ==> self.users@[j].id != user_id,
            decreases count - i,
        {
            if self.users[i].id == user_id {
                return Some(self.users[i].username.clone());
            }
            i = i + 1;
        }
        None
    }

    /// Inserts a session row; refuses a token that is already present, which
    /// keeps tokens unique.
    pub fn create_session(&mut self, user_id: u128, token: String, expires_at: u64) -> (r: Result<
        (),
        ApiError,
    >)
        requires
            old(self).wf(),
        ensures
            final(self).wf(),
            r is Err == exists|i: int|
                0 <= i < old(self).sessions@.len() && old(self).sessions@[i].token@ == token@,
            r matches Err(e) ==> e == ApiError::Internal && final(self).sessions@ == old(self).sessions@,
            r is Ok ==> final(self).sessions@ == old(self).sessions@.push(
                SessionRecord { user_id, token: token, expires_at },
            ),
            final(self).users@ == old(self).users@,
            final(self).chats@ == old(self).chats@,
            final(self).chat_members@ == old(self).chat_members@,
            final(self).messages@ == old(self).messages@,
            final(self).invites@ == old(self).invites@,
    {
        let n = self.sessions.len();
        let mut i: usize = 0;
        while i < n
            invariant
                *self == *old(self),
                old(self).wf(),
                n == self.sessions@.len(),
                0 <= i <= n,
                forall|j: int| 0 <= j < i ==> self.sessions@[j].token@ != token@,
            decreases n - i,
        {
            if self.sessions[i].token == token {
                return Err(ApiError::Internal);
            }
            i = i + 1;
        }
        let ghost before = self.sessions@;
        self.sessions.push(SessionRecord { user_id, token, expires_at });
        proof {
            assert forall|a: int, b: int|
                0 <= a < b < self.sessions@.len() implies self.sessions@[a].token@
                != self.sessions@[b].token@ by {
                if b < before.len() {
                } else {
                    assert(self.sessions@[a] == before[a]);
                }
            }
        }
        Ok(())
    }

    /// Resolves a token to the user of an unexpired session.
    pub fn verify_session_token(&self, token: &String, now: u64) -> (r: Option<u128>)
        requires
            self.wf(),
        ensures
            r matches Some(u) ==> live_session(self.sessions@, token@, now, u),
            r is None ==> forall|u: u128| !live_session(self.sessions@, token@, now, u),
    {
        let n = self.sessions.len();
        let mut i: usize = 0;
        while i < n
            invariant
                self.wf(),
                n == self.sessions@.len(),
                0 <= i <= n,
                forall|j: int| 0 <= j < i ==> self.sessions@[j].token@ != token@,
            decreases n - i,
        {
            if self.sessions[i].token == *token {
                if self.sessions[i].expires_at > now {
                    return Some(self.sessions[i].user_id);
                } else {
                    proof {
                        let s = self.sessions@;
                        assert forall|u: u128| !live_session(s, token@, now, u) by {
                            if live_session(s, token@, now, u) {
                                let k = choose|k: int|
                                    0 <= k < s.len() && s[k].token@ == token@ && s[k].expires_at
                                        > now && s[k].user_id == u;
                                if k < i as int {
                                    assert(s[k].token@ != token@);
                                } else if k == i as int {
                                    assert(s[k].expires_at <= now);
                                } else {
                                    lemma_tokens_unique_pair(s, i as int, k);
                                }
                            }
                        }
                    }
                    return None;
                }
            }
            i = i + 1;
        }
        proof {
            let s = self.sessions@;
            assert forall|u: u128| !live_session(s, token@, now, u) by {
                if live_session(s, token@, now, u) {
                    let k = choose|k: int|
                        0 <= k < s.len() && s[k].token@ == token@ && s[k].expires_at > now
                            && s[k].user_id == u;
                    assert(s[k].token@ != token@);
                }
            }
        }
        None
    }

    /// Inserts a chat row.
    pub fn create_chat(&mut self, chat_id: u128, name: String)
        requires
            old(self).wf(),
        ensures
            final(self).wf(),
            final(self).chats@ == old(self).chats@.push(ChatRecord { id: chat_id, name: name }),
            final(self).users@ == old(self).users@,
            final(self).chat_members@ == old(self).chat_members@,
            final(self).messages@ == old(self).messages@,
            final(self).invites@ == old(self).invites@,
            final(self).sessions@ == old(self).sessions@,
    {
        self.chats.push(ChatRecord { id: chat_id, name });
    }

    /// Whether any membership row exists for (chat, user), whatever its
    /// status.
    pub fn check_user_membership(&self, chat_id: u128, user_id: u128) -> (r: bool)
        ensures
            r == has_membership(self.chat_members@, chat_id, user_id),
    {
        let n = self.chat_members.len();
        let mut i: usize = 0;
        while i < n
            invariant
                n == self.chat_members@.len(),
                0 <= i <= n,
                forall|j: int|
                    0 <= j < i ==> !(self.chat_members@[j].chat_id == chat_id
                        && self.chat_members@[j].user_id == user_id),
            decreases n - i,
        {
            if self.chat_members[i].chat_id == chat_id && self.chat_members[i].user_id == user_id {
                return true;
            }
            i = i + 1;
        }
        false
    }

    /// Whether (chat, user) has an accepted membership row.
    pub fn is_member(&self, chat_id: u128, user_id: u128) -> (r: bool)
        ensures
            r == accepted_member(self.chat_members@, chat_id, user_id),
    {
        let n = self.chat_members.len();
        let mut i: usize = 0;
        while i < n
            invariant
                n == self.chat_members@.len(),
                0 <= i <= n,
                forall|j: int|
                    0 <= j < i ==> !(self.chat_members@[j].chat_id == chat_id
                        && self.chat_members@[j].user_id == user_id && self.chat_members@[j].status
                        == MembershipStatus::Accepted),
            decreases n - i,
        {
            if self.chat_members[i].chat_id == chat_id && self.chat_members[i].user_id == user_id
                && self.chat_members[i].status == MembershipStatus::Accepted {
                return true;
            }
            i = i + 1;
        }
        false
    }

    /// Inserts the creator's membership row: accepted, creator. Fails when a
    /// row for (chat, user) already exists, which keeps rows unique.
    pub fn add_chat_member(&mut self, chat_id: u128, user_id: u128) -> (r: Result<(), ApiError>)
        requires
            old(self).wf(),
        ensures
            final(self).wf(),
            r is Err == has_membership(old(self).chat_members@, chat_id, user_id),
            r matches Err(e) ==> e == ApiError::Internal && final(self).chat_members@ == old(self).chat_members@,
            r is Ok ==> final(self).chat_members@ == old(self).chat_members@.push(
                MembershipRecord {
                    chat_id,
                    user_id,
                    status: MembershipStatus::Accepted,
                    is_creator: true,
                },
            ),
            r is Ok ==> accepted_member(final(self).chat_members@, chat_id, user_id),
            final(self).users@ == old(self).users@,
            final(self).chats@ == old(self).chats@,
            final(self).messages@ == old(self).messages@,
            final(self).invites@ == old(self).invites@,
            final(self).sessions@ == old(self).sessions@,
    {
        if self.check_user_membership(chat_id, user_id) {
            return Err(ApiError::Internal);
        }
        let ghost before = self.chat_members@;
        let row = MembershipRecord {
            chat_id,
            user_id,
            status: MembershipStatus::Accepted,
            is_creator: true,
        };
        self.chat_members.push(row);
        proof {
            assert forall|a: int, b: int|
                0 <= a < b < self.chat_members@.len() implies !(self.chat_members@[a].chat_id
                == self.chat_members@[b].chat_id && self.chat_members@[a].user_id
                == self.chat_members@[b].user_id) by {
                if b < before.len() {
                } else {
                    assert(self.chat_members@[a] == before[a]);
                }
            }
            assert(self.chat_members@[self.chat_members@.len() - 1] == row);
        }
        Ok(())
    }

    /// Upserts an accepted membership row for (chat, user): flips an existing
    /// row to accepted, or inserts a fresh non-creator row.
    pub fn insert_user_to_chat(&mut self, chat_id: u128, user_id: u128)
        requires
            old(self).wf(),
        ensures
            final(self).wf(),
            accepted_member(final(self).chat_members@, chat_id, user_id),
            has_membership(old(self).chat_members@, chat_id, user_id) ==> exists|k: int|
                0 <= k < old(self).chat_members@.len() && old(self).chat_members@[k].chat_id
                    == chat_id && old(self).chat_members@[k].user_id == user_id && final(self).chat_members@ == old(self).chat_members@.update(
                    k,
                    MembershipRecord {
                        chat_id,
                        user_id,
                        status: MembershipStatus::Accepted,
                        is_creator: old(self).chat_members@[k].is_creator,
                    },
                ),
            !has_membership(old(self).chat_members@, chat_id, user_id) ==> final(self).chat_members@ == old(self).chat_members@.push(
                MembershipRecord {
                    chat_id,
                    user_id,
                    status: MembershipStatus::Accepted,
                    is_creator: false,
                },
            ),
            final(self).users@ == old(self).users@,
            final(self).chats@ == old(self).chats@,
            final(self).messages@ == old(self).messages@,
            final(self).invites@ == old(self).invites@,
            final(self).sessions@ == old(self).sessions@,
    {
        let n = self.chat_members.len();
        let mut i: usize = 0;
        while i < n
            invariant
                *self == *old(self),
                old(self).wf(),
                n == self.chat_members@.len(),
                0 <= i <= n,
                forall|j: int|
                    0 <= j < i ==> !(self.chat_members@[j].chat_id == chat_id
                        && self.chat_members@[j].user_id == user_id),
            decreases n - i,
        {
            if self.chat_members[i].chat_id == chat_id && self.chat_members[i].user_id == user_id {
                let updated = MembershipRecord {
                    chat_id,
                    user_id,
                    status: MembershipStatus::Accepted,
                    is_creator: self.chat_members[i].is_creator,
                };
                let ghost before = self.chat_members@;
                self.chat_members.remove(i);
                self.chat_members.insert(i, updated);
                proof {
                    before.remove_ensures(i as int);
                    before.remove(i as int).insert_ensures(i as int, updated);
                    assert(self.chat_members@ =~= before.update(i as int, updated));
                    assert forall|a: int, b: int|
                        0 <= a < b < self.chat_members@.len() implies !(
                    self.chat_members@[a].chat_id == self.chat_members@[b].chat_id
                        && self.chat_members@[a].user_id == self.chat_members@[b].user_id) by {
                        assert(before[a].chat_id == self.chat_members@[a].chat_id && before[a].user_id
                            == self.chat_members@[a].user_id);
                        assert(before[b].chat_id == self.chat_members@[b].chat_id && before[b].user_id
                            == self.chat_members@[b].user_id);
                    }
                    assert(self.chat_members@[i as int] == updated);
                }
                return ;
            }
            i = i + 1;
        }
        let ghost before = self.chat_members@;
        let row = MembershipRecord {
            chat_id,
            user_id,
            status: MembershipStatus::Accepted,
            is_creator: false,
        };
        self.chat_members.push(row);
        proof {
            assert forall|a: int, b: int|
                0 <= a < b < self.chat_members@.len() implies !(self.chat_members@[a].chat_id
                == self.chat_members@[b].chat_id && self.chat_members@[a].user_id
                == self.chat_members@[b].user_id) by {
                if b < before.len() {
                } else {
                    assert(self.chat_members@[a] == before[a]);
                }
            }
            assert(self.chat_members@[self.chat_members@.len() - 1] == row);
        }
    }

    /// Inserts a message at its place in timestamp order.
    pub fn insert_message(&mut self, msg: Message)
        requires
            old(self).wf(),
        ensures
            final(self).wf(),
            exists|k: int|
                0 <= k <= old(self).messages@.len() && final(self).messages@ == old(self).messages@.insert(k, msg),
            final(self).messages@.contains(msg),
            final(self).users@ == old(self).users@,
            final(self).chats@ == old(self).chats@,
            final(self).chat_members@ == old(self).chat_members@,
            final(self).invites@ == old(self).invites@,
            final(self).sessions@ == old(self).sessions@,
    {
        let ts = msg.timestamp;
        let n = self.messages.len();
        let mut k: usize = 0;
        while k < n && self.messages[k].timestamp <= ts
            invariant
                *self == *old(self),
                old(self).wf(),
                n == self.messages@.len(),
                0 <= k <= n,
                forall|j: int| 0 <= j < k ==> self.messages@[j].timestamp <= ts,
            decreases n - k,
        {
            k = k + 1;
        }
        let ghost before = self.messages@;
        self.messages.insert(k, msg);
        proof {
            before.insert_ensures(k as int, msg);
            assert(self.messages@ == before.insert(k as int, msg));
            assert forall|a: int, b: int|
                0 <= a <= b < self.messages@.len() implies self.messages@[a].timestamp
                <= self.messages@[b].timestamp by {
                let ki = k as int;
                if a < ki && b < ki {
                } else if a < ki && b == ki {
                } else if a < ki && b > ki {
                    assert(self.messages@[b] == before[b - 1]);
                } else if a == ki && b == ki {
                } else if a == ki && b > ki {
                    assert(self.messages@[b] == before[b - 1]);
                    assert(ki < before.len() ==> ts < before[ki].timestamp);
                    assert(before[ki].timestamp <= before[b - 1].timestamp);
                } else {
                    assert(self.messages@[a] == before[a - 1]);
                    assert(self.messages@[b] == before[b - 1]);
                }
            }
            assert(self.messages@[k as int] == msg);
        }
    }

    /// Retrieves a message by its identifier; the first matching row answers.
    pub fn get_message_by_id(&self, message_id: u128) -> (r: Option<Message>)
        ensures
            r is Some == exists|i: int|
                0 <= i < self.messages@.len() && self.messages@[i].id == message_id,
            r matches Some(m) ==> self.messages@.contains(m) && m.id == message_id,
    {
        let n = self.messages.len();
        let mut i: usize = 0;
        while i < n
            invariant
                n == self.messages@.len(),
                0 <= i <= n,
                forall|j: int| 0 <= j < i ==> self.messages@[j].id != message_id,
            decreases n - i,
        {
            if self.messages[i].id == message_id {
                let found = self.messages[i].duplicate();
                assert(self.messages@[i as int] == found);
                return Some(found);
            }
            i = i + 1;
        }
        None
    }

    /// All messages of a chat, in timestamp order (the stored order).
    pub fn get_chat_messages(&self, chat_id: u128) -> (r: Vec<Message>)
        requires
            self.wf(),
        ensures
            r@ == chat_filter(self.messages@, chat_id),
    {
        let mut out: Vec<Message> = Vec::new();
        let n = self.messages.len();
        let mut i: usize = 0;
        proof {
            assert(self.messages@.take(0) =~= Seq::<Message>::empty());
            assert(chat_filter(self.messages@.take(0), chat_id) =~= Seq::<Message>::empty());
        }
        while i < n
            invariant
                n == self.messages@.len(),
                0 <= i <= n,
                out@ == chat_filter(self.messages@.take(i as int), chat_id),
            decreases n - i,
        {
            proof {
                lemma_chat_filter_step(self.messages@, chat_id, i as int);
            }
            if self.messages[i].chat_id == chat_id {
                out.push(self.messages[i].duplicate());
            }
            i = i + 1;
        }
        proof {
            assert(self.messages@.take(n as int) =~= self.messages@);
        }
        out
    }

    /// Inserts a pending invitation and returns the row.
    pub fn create_invitation(
        &mut self,
        invite_id: u128,
        chat_id: u128,
        inviter_id: u128,
        invitee_id: u128,
        now: u64,
    ) -> (r: ChatInvitation)
        requires
            old(self).wf(),
        ensures
            final(self).wf(),
            r == (ChatInvitation {
                id: invite_id,
                chat_id,
                inviter_id,
                invitee_id,
                status: InvitationStatus::Pending,
                created_at: now,
                updated_at: now,
            }),
            final(self).invites@ == old(self).invites@.push(r),
            final(self).users@ == old(self).users@,
            final(self).chats@ == old(self).chats@,
            final(self).chat_members@ == old(self).chat_members@,
            final(self).messages@ == old(self).messages@,
            final(self).sessions@ == old(self).sessions@,
    {
        let row = ChatInvitation {
            id: invite_id,
            chat_id,
            inviter_id,
            invitee_id,
            status: InvitationStatus::Pending,
            created_at: now,
            updated_at: now,
        };
        self.invites.push(row);
        row
    }

    /// Inserts a pending invitation and returns its identifier.
    pub fn send_invitation(
        &mut self,
        chat_id: u128,
        inviter_id: u128,
        invitee_id: u128,
        invite_id: u128,
        now: u64,
    ) -> (r: u128)
        requires
            old(self).wf(),
        ensures
            final(self).wf(),
            r == invite_id,
            final(self).invites@ == old(self).invites@.push(
                ChatInvitation {
                    id: invite_id,
                    chat_id,
                    inviter_id,
                    invitee_id,
                    status: InvitationStatus::Pending,
                    created_at: now,
                    updated_at: now,
                },
            ),
            final(self).users@ == old(self).users@,
            final(self).chats@ == old(self).chats@,
            final(self).chat_members@ == old(self).chat_members@,
            final(self).messages@ == old(self).messages@,
            final(self).sessions@ == old(self).sessions@,
    {
        let row = self.create_invitation(invite_id, chat_id, inviter_id, invitee_id, now);
        row.id
    }

    /// Whether an invite row exists with this id and invitee.
    pub fn check_invite_exists(&self, invitation_id: u128, user_id: u128) -> (r: bool)
        ensures
            r == exists|i: int|
                0 <= i < self.invites@.len() && invite_match(self.invites@[i], invitation_id, user_id),
    {
        let n = self.invites.len();
        let mut i: usize = 0;
        while i < n
            invariant
                n == self.invites@.len(),
                0 <= i <= n,
                forall|j: int| 0 <= j < i ==> !invite_match(self.invites@[j], invitation_id, user_id),
            decreases n - i,
        {
            if self.invites[i].id == invitation_id && self.invites[i].invitee_id == user_id {
                assert(invite_match(self.invites@[i as int], invitation_id, user_id));
                return true;
            }
            i = i + 1;
        }
        false
    }

    /// Settles the first invite row addressed by (id, invitee): a pending row
    /// becomes accepted or rejected; a missing row is NotFound; a row already
    /// settled is a Conflict.
    pub fn update_invitation_status(
        &mut self,
        invitation_id: u128,
        user_id: u128,
        accepted: bool,
        now: u64,
    ) -> (r: Result<ChatInvitation, ApiError>)
        requires
            old(self).wf(),
        ensures
            final(self).wf(),
            r == Err::<ChatInvitation, ApiError>(ApiError::NotFound) <==> (forall|i: int|
                0 <= i < old(self).invites@.len() ==> !invite_match(
                    old(self).invites@[i],
                    invitation_id,
                    user_id,
                )),
            r is Ok <==> exists|k: int|
                0 <= k < old(self).invites@.len() && invite_match(
                    old(self).invites@[k],
                    invitation_id,
                    user_id,
                ) && (forall|j: int|
                    0 <= j < k ==> !invite_match(old(self).invites@[j], invitation_id, user_id))
                    && old(self).invites@[k].status == InvitationStatus::Pending,
            r is Err ==> final(self).invites@ == old(self).invites@,
            r matches Err(e) ==> e == ApiError::NotFound || e == ApiError::Conflict,
            r matches Ok(inv) ==> exists|k: int|
                0 <= k < old(self).invites@.len() && invite_match(
                    old(self).invites@[k],
                    invitation_id,
                    user_id,
                ) && (forall|j: int|
                    0 <= j < k ==> !invite_match(old(self).invites@[j], invitation_id, user_id))
                    && old(self).invites@[k].status == InvitationStatus::Pending && inv == (
                ChatInvitation {
                    status: if accepted {
                        InvitationStatus::Accepted
                    } else {
                        InvitationStatus::Rejected
                    },
                    updated_at: now,
                    ..old(self).invites@[k]
                }) && final(self).invites@ == old(self).invites@.update(k, inv),
            final(self).users@ == old(self).users@,
            final(self).chats@ == old(self).chats@,
            final(self).chat_members@ == old(self).chat_members@,
            final(self).messages@ == old(self).messages@,
            final(self).sessions@ == old(self).sessions@,
    {
        let n = self.invites.len();
        let mut i: usize = 0;
        while i < n
            invariant
                *self == *old(self),
                old(self).wf(),
                n == self.invites@.len(),
                0 <= i <= n,
                forall|j: int| 0 <= j < i ==> !invite_match(self.invites@[j], invitation_id, user_id),
            decreases n - i,
        {
            if self.invites[i].id == invitation_id && self.invites[i].invitee_id == user_id {
                if !matches!(self.invites[i].status, InvitationStatus::Pending) {
                    proof {
                        let rows = self.invites@;
                        assert forall|k: int|
                            !(0 <= k < rows.len() && invite_match(rows[k], invitation_id, user_id)
                                && (forall|j: int|
                                0 <= j < k ==> !invite_match(rows[j], invitation_id, user_id))
                                && rows[k].status == InvitationStatus::Pending) by {
                            if 0 <= k < rows.len() && invite_match(rows[k], invitation_id, user_id)
                                && (forall|j: int|
                                0 <= j < k ==> !invite_match(rows[j], invitation_id, user_id))
                                && rows[k].status == InvitationStatus::Pending {
                                if k < i as int {
                                    assert(!invite_match(rows[k], invitation_id, user_id));
                                } else if k > i as int {
                                    assert(!invite_match(rows[i as int], invitation_id, user_id));
                                }
                            }
                        }
                    }
                    return Err(ApiError::Conflict);
                }
                let cur = self.invites[i];
                let updated = ChatInvitation {
                    status: if accepted {
                        InvitationStatus::Accepted
                    } else {
                        InvitationStatus::Rejected
                    },
                    updated_at: now,
                    ..cur
                };
                let ghost before = self.invites@;
                self.invites.remove(i);
                self.invites.insert(i, updated);
                proof {
                    before.remove_ensures(i as int);
                    before.remove(i as int).insert_ensures(i as int, updated);
                    assert(self.invites@ =~= before.update(i as int, updated));
                    assert(invite_match(before[i as int], invitation_id, user_id));
                }
                return Ok(updated);
            }
            i = i + 1;
        }
        proof {
            let rows = self.invites@;
            assert forall|k: int|
                !(0 <= k < rows.len() && invite_match(rows[k], invitation_id, user_id) && (
                forall|j: int| 0 <= j < k ==> !invite_match(rows[j], invitation_id, user_id))
                    && rows[k].status == InvitationStatus::Pending) by {
                if 0 <= k < rows.len() {
                    assert(!invite_match(rows[k], invitation_id, user_id));
                }
            }
        }
        Err(ApiError::NotFound)
    }
}

} // verus!
