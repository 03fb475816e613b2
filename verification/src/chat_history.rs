//! The conversation history of each user with the assistant.
use vstd::prelude::*;

use crate::audit::UnknownCode;
use crate::model::{UnixNanos, UserAddress};
use crate::text::str_eq;

verus! {

/// Who spoke a chat turn.
#[derive(Clone, Copy, Debug, PartialEq, Eq, Structural, Hash)]
pub enum ChatRole {
    User,
    Assistant,
}

pub open spec fn role_code(r: ChatRole) -> Seq<char> {
    match r {
        ChatRole::User => "user"@,
        ChatRole::Assistant => "assistant"@,
    }
}

pub open spec fn role_named(s: Seq<char>) -> Option<ChatRole> {
    if s == "user"@ {
        Some(ChatRole::User)
    } else if s == "assistant"@ {
        Some(ChatRole::Assistant)
    } else {
        None
    }
}

impl ChatRole {
    /// The role's text code.
    pub fn as_str(self) -> (r: &'static str)
        ensures
            r@ == role_code(self),
    {
        match self {
            ChatRole::User => "user",
            ChatRole::Assistant => "assistant",
        }
    }

    /// The role named by a text code.
    pub fn from_str(s: &str) -> (r: Result<ChatRole, UnknownCode>)
        ensures
            r is Ok <==> role_named(s@) is Some,
            r matches Ok(c) ==> role_named(s@) == Some(c),
            r matches Err(u) ==> u.text@ == s@,
    {
        if str_eq(s, "user") {
            Ok(ChatRole::User)
        } else if str_eq(s, "assistant") {
            Ok(ChatRole::Assistant)
        } else {
            Err(UnknownCode { text: s.to_owned() })
        }
    }
}

/// Decoding a role's code gives the role back.
pub proof fn law_role_code_round_trip(r: ChatRole)
    ensures
        role_named(role_code(r)) == Some(r),
{
    reveal_strlit("user");
    reveal_strlit("assistant");
    assert("user"@.len() == 4);
    assert("assistant"@.len() == 9);
}

/// A stored chat turn; `trace` is JSON text.
#[derive(Debug)]
pub struct ChatTurnRow {
    pub id: i64,
    pub ts: UnixNanos,
    pub role: ChatRole,
    pub text: String,
    pub trace: Option<String>,
}

impl ChatTurnRow {
    /// A copy of the row.
    pub fn duplicate(&self) -> (r: ChatTurnRow)
        ensures
            r == *self,
    {
        ChatTurnRow {
            id: self.id,
            ts: self.ts,
            role: self.role,
            text: self.text.clone(),
            trace: match &self.trace {
                Some(t) => Some(t.clone()),
                None => None,
            },
        }
    }
}

/// A chat turn to record.
#[derive(Debug)]
pub struct NewChatTurn {
    pub user: UserAddress,
    pub role: ChatRole,
    pub text: String,
    pub trace: Option<String>,
}

/// One user's turns, oldest first.
#[derive(Debug)]
pub struct UserChat {
    pub user: UserAddress,
    pub rows: Vec<ChatTurnRow>,
}

pub open spec fn chat_entry_of(s: Seq<UserChat>, u: UserAddress, i: int) -> bool {
    &&& 0 <= i < s.len()
    &&& s[i].user == u
    &&& forall|j: int| 0 <= j < i ==> s[j].user != u
}

/// The turns of user `u`, oldest first.
pub open spec fn turns_of(s: Seq<UserChat>, u: UserAddress) -> Seq<ChatTurnRow> {
    if exists|i: int| chat_entry_of(s, u, i) {
        s[choose|i: int| chat_entry_of(s, u, i)].rows@
    } else {
        Seq::empty()
    }
}

pub open spec fn chat_users_distinct(s: Seq<UserChat>) -> bool {
    forall|i: int, j: int| 0 <= i < s.len() && 0 <= j < s.len() && i != j ==> s[i].user != s[j].user
}

proof fn lemma_turns_at(s: Seq<UserChat>, u: UserAddress, i: int)
    requires
        chat_users_distinct(s),
        0 <= i < s.len(),
        s[i].user == u,
    ensures
        turns_of(s, u) == s[i].rows@,
{
    assert(chat_entry_of(s, u, i));
    let c = choose|c: int| chat_entry_of(s, u, c);
    assert(c == i);
}

proof fn lemma_turns_absent(s: Seq<UserChat>, u: UserAddress)
    requires
        forall|j: int| 0 <= j < s.len() ==> s[j].user != u,
    ensures
        turns_of(s, u) == Seq::<ChatTurnRow>::empty(),
{
}

proof fn lemma_distinct_update(s: Seq<UserChat>, i: int, e: UserChat)
    requires
        chat_users_distinct(s),
        0 <= i < s.len(),
        e.user == s[i].user,
    ensures
        chat_users_distinct(s.update(i, e)),
{
}

/// Replacing entry `i` (of user `s[i].user`) leaves every other user's turns.
proof fn lemma_turns_update(s: Seq<UserChat>, i: int, e: UserChat, u: UserAddress)
    requires
        chat_users_distinct(s),
        0 <= i < s.len(),
        e.user == s[i].user,
        u != e.user,
    ensures
        chat_users_distinct(s.update(i, e)),
        turns_of(s.update(i, e), u) == turns_of(s, u),
{
    let t = s.update(i, e);
    assert(chat_users_distinct(t));
    if exists|j: int| 0 <= j < t.len() && t[j].user == u {
        let j = choose|j: int| 0 <= j < t.len() && t[j].user == u;
        lemma_turns_at(t, u, j);
        lemma_turns_at(s, u, j);
    } else {
        assert forall|j: int| 0 <= j < s.len() implies s[j].user != u by {
            if j != i {
                assert(t[j] == s[j]);
            }
        }
        lemma_turns_absent(t, u);
        lemma_turns_absent(s, u);
    }
}

/// Chat turns kept in memory, per user; ids come from one counter shared by
/// all users, which wraps around.
#[derive(Debug)]
pub struct InMemoryChatHistoryStore {
    chats: Vec<UserChat>,
    next_id: i64,
}

impl InMemoryChatHistoryStore {
    pub closed spec fn chats(&self) -> Seq<UserChat> {
        self.chats@
    }

    /// The id the next turn gets.
    pub closed spec fn next_id(&self) -> i64 {
        self.next_id
    }

    pub closed spec fn wf(&self) -> bool {
        chat_users_distinct(self.chats@)
    }

    /// The turns of user `u`, oldest first.
    pub open spec fn turns(&self, u: UserAddress) -> Seq<ChatTurnRow> {
        turns_of(self.chats(), u)
    }

    pub fn new() -> (r: Self)
        ensures
            r.wf(),
            r.next_id() == 1,
            forall|u: UserAddress| r.turns(u) == Seq::<ChatTurnRow>::empty(),
    {
        InMemoryChatHistoryStore { chats: Vec::new(), next_id: 1 }
    }

    fn index_of(&self, user: UserAddress) -> (r: Option<usize>)
        requires
            self.wf(),
        ensures
            r matches Some(i) ==> i < self.chats@.len() && self.chats@[i as int].user == user
                && self.turns(user) == self.chats@[i as int].rows@,
            r is None ==> (forall|i: int| 0 <= i < self.chats@.len() ==> self.chats@[i].user != user)
                && self.turns(user) == Seq::<ChatTurnRow>::empty(),
    {
        let mut i: usize = 0;
        while i < self.chats.len()
            invariant
                self.wf(),
                i <= self.chats@.len(),
                forall|j: int| 0 <= j < i ==> self.chats@[j].user != user,
            decreases self.chats@.len() - i,
        {
            if self.chats[i].user == user {
                proof {
                    lemma_turns_at(self.chats@, user, i as int);
                }
                return Some(i);
            }
            i = i + 1;
        }
        proof {
            lemma_turns_absent(self.chats@, user);
        }
        None
    }

    /// Records the turn at `now` under the next id and returns that id.
    pub fn append(&mut self, turn: NewChatTurn, now: UnixNanos) -> (r: i64)
        requires
            old(self).wf(),
        ensures
            final(self).wf(),
            r == old(self).next_id(),
            final(self).next_id() == old(self).next_id().wrapping_add(1),
            final(self).turns(turn.user) == old(self).turns(turn.user).push(
                ChatTurnRow { id: r, ts: now, role: turn.role, text: turn.text, trace: turn.trace },
            ),
            forall|u: UserAddress| u != turn.user ==> final(self).turns(u) == old(self).turns(u),
    {
        let id = self.next_id;
        self.next_id = id.wrapping_add(1);
        let user = turn.user;
        let row = ChatTurnRow { id, ts: now, role: turn.role, text: turn.text, trace: turn.trace };
        let ghost old_chats = self.chats@;
        let ghost stored = row;
        match self.index_of(user) {
            Some(i) => {
                let mut chat = self.chats.remove(i);
                chat.rows.push(row);
                let ghost e = chat;
                self.chats.insert(i, chat);
                proof {
                    assert(self.chats@ =~= old_chats.update(i as int, e));
                    assert forall|u: UserAddress| u != user implies turns_of(self.chats@, u) == turns_of(
                        old_chats,
                        u,
                    ) by {
                        lemma_turns_update(old_chats, i as int, e, u);
                    }
                    lemma_distinct_update(old_chats, i as int, e);
                    lemma_turns_at(self.chats@, user, i as int);
                }
            },
            None => {
                let mut rows: Vec<ChatTurnRow> = Vec::new();
                rows.push(row);
                let ghost e = UserChat { user, rows };
                self.chats.push(UserChat { user, rows });
                proof {
                    let s = self.chats@;
                    assert(s == old_chats.push(e));
                    assert(chat_users_distinct(s));
                    lemma_turns_at(s, user, old_chats.len() as int);
                    assert(e.rows@ =~= Seq::<ChatTurnRow>::empty().push(stored));
                    assert forall|u: UserAddress| u != user implies turns_of(s, u) == turns_of(old_chats, u) by {
                        if exists|j: int| 0 <= j < old_chats.len() && old_chats[j].user == u {
                            let j = choose|j: int| 0 <= j < old_chats.len() && old_chats[j].user == u;
                            lemma_turns_at(s, u, j);
                            lemma_turns_at(old_chats, u, j);
                        } else {
                            lemma_turns_absent(s, u);
                            lemma_turns_absent(old_chats, u);
                        }
                    }
                }
            },
        }
        id
    }

    /// The last `limit` turns of `user`, oldest first.
    pub fn list_for_user(&self, user: UserAddress, limit: usize) -> (r: Vec<ChatTurnRow>)
        requires
            self.wf(),
        ensures
            r@ == self.turns(user).skip(
                if self.turns(user).len() > limit {
                    self.turns(user).len() - limit
                } else {
                    0
                },
            ),
    {
        match self.index_of(user) {
            None => Vec::new(),
            Some(i) => {
                let rows = &self.chats[i].rows;
                let start: usize = if rows.len() > limit {
                    rows.len() - limit
                } else {
                    0
                };
                let mut out: Vec<ChatTurnRow> = Vec::new();
                let mut k: usize = start;
                while k < rows.len()
                    invariant
                        start <= k <= rows@.len(),
                        out@ == rows@.subrange(start as int, k as int),
                    decreases rows@.len() - k,
                {
                    out.push(rows[k].duplicate());
                    assert(rows@.subrange(start as int, k + 1) =~= rows@.subrange(start as int, k as int).push(
                        rows@[k as int],
                    ));
                    k = k + 1;
                }
                assert(rows@.skip(start as int) =~= rows@.subrange(start as int, rows@.len() as int));
                out
            },
        }
    }

    /// Forgets every turn of `user`.
    pub fn clear_for_user(&mut self, user: UserAddress)
        requires
            old(self).wf(),
        ensures
            final(self).wf(),
            final(self).next_id() == old(self).next_id(),
            final(self).turns(user) == Seq::<ChatTurnRow>::empty(),
            forall|u: UserAddress| u != user ==> final(self).turns(u) == old(self).turns(u),
    {
        let ghost old_chats = self.chats@;
        match self.index_of(user) {
            None => {},
            Some(i) => {
                self.chats.remove(i);
                proof {
                    let s = self.chats@;
                    assert(s =~= old_chats.remove(i as int));
                    assert forall|a: int, b: int| 0 <= a < s.len() && 0 <= b < s.len() && a != b implies s[a].user
                        != s[b].user by {
                        let a0 = if a < i { a } else { a + 1 };
                        let b0 = if b < i { b } else { b + 1 };
                        assert(s[a] == old_chats[a0]);
                        assert(s[b] == old_chats[b0]);
                    }
                    assert forall|j: int| 0 <= j < s.len() implies s[j].user != user by {
                        let j0 = if j < i { j } else { j + 1 };
                        assert(s[j] == old_chats[j0]);
                    }
                    lemma_turns_absent(s, user);
                    assert forall|u: UserAddress| u != user implies turns_of(s, u) == turns_of(old_chats, u) by {
                        if exists|j: int| 0 <= j < s.len() && s[j].user == u {
                            let j = choose|j: int| 0 <= j < s.len() && s[j].user == u;
                            let j0 = if j < i { j } else { j + 1 };
                            assert(s[j] == old_chats[j0]);
                            lemma_turns_at(s, u, j);
                            lemma_turns_at(old_chats, u, j0);
                        } else {
                            assert forall|j: int| 0 <= j < old_chats.len() implies old_chats[j].user != u by {
                                if j < i {
                                    assert(s[j] == old_chats[j]);
                                } else if j > i {
                                    assert(s[j - 1] == old_chats[j]);
                                }
                            }
                            lemma_turns_absent(s, u);
                            lemma_turns_absent(old_chats, u);
                        }
                    }
                }
            },
        }
    }
}

} // verus!
