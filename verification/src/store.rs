//! The durable state behind the pipeline: users, chats, memberships, the
//! append-only message log, the delivery work queue, and the per-chat history
//! cache, together with the invariant that ties them to one another.
use vstd::prelude::*;
use crate::ChatError;

verus! {

/// Lifecycle of a submitted message: created as `Processing`, moved to `Sent`
/// by the delivery worker in the same step that finishes its queue entry.
#[derive(Clone, Copy, PartialEq, Eq, Structural, Debug)]
pub enum MessageStatus {
    Processing,
    Sent,
}

/// Lifecycle of a delivery task: `Queued` until the worker delivers the
/// message it references, then `Finished` (one-way, terminal).
#[derive(Clone, Copy, PartialEq, Eq, Structural, Debug)]
pub enum QueueStatus {
    Queued,
    Finished,
}

/// An account; usernames are unique across the store.
pub struct User {
    pub username: String,
    pub password_hash: String,
}

/// One delivered message as the read path sees it.
#[derive(Debug)]
pub struct HistoryRecord {
    pub username: String,
    pub content: String,
    pub created_at: u64,
}

/// A named room together with its materialized history cache.
pub struct Chat {
    pub name: String,
    pub history: Vec<HistoryRecord>,
}

/// A (chat, user) pair recording room membership.
pub struct Membership {
    pub chat_id: usize,
    pub user_id: usize,
    pub active: bool,
    pub joined_at: u64,
}

/// An entry of the durable log. `chat_id` and `user_id` index `chats` and
/// `users`; everything but `status` is immutable once appended.
pub struct Message {
    pub chat_id: usize,
    pub user_id: usize,
    pub content: String,
    pub created_at: u64,
    pub status: MessageStatus,
}

/// A delivery task. Entries are appended in step with messages, so the entry
/// at index `i` always references the message at index `i`.
pub struct QueueEntry {
    pub message_id: usize,
    pub queued_at: u64,
    pub status: QueueStatus,
}

/// The whole store. Identifiers are indices into the owning vectors.
pub struct Store {
    pub users: Vec<User>,
    pub chats: Vec<Chat>,
    pub memberships: Vec<Membership>,
    pub messages: Vec<Message>,
    pub queue: Vec<QueueEntry>,
}

/// The (author username, content) views of a history sequence, in order.
pub open spec fn history_pairs(h: Seq<HistoryRecord>) -> Seq<(Seq<char>, Seq<char>)> {
    h.map_values(|r: HistoryRecord| (r.username@, r.content@))
}

/// Two history records carry the same data.
pub open spec fn record_like(a: HistoryRecord, b: HistoryRecord) -> bool {
    a.username@ == b.username@ && a.content@ == b.content@ && a.created_at == b.created_at
}

/// Two history sequences carry the same data, record for record.
pub open spec fn records_like(a: Seq<HistoryRecord>, b: Seq<HistoryRecord>) -> bool {
    a.len() == b.len() && forall|i: int| 0 <= i < a.len() ==> record_like(#[trigger] a[i], b[i])
}

/// Relies on `str`'s `PartialEq`: two string slices are equal exactly when
/// their contents are.
#[verifier::external_body]
fn str_eq(a: &str, b: &str) -> (r: bool)
    ensures
        r == (a@ == b@),
{
    a == b
}

/// Both pair sequences read only the queue, the log, and the authors'
/// usernames: two stores that agree on those up to `upto` agree on the pairs.
pub proof fn lemma_pairs_frame(s1: Store, s2: Store, c: int, upto: int)
    requires
        upto <= s1.queue@.len(),
        upto <= s1.messages@.len(),
        forall|i: int| 0 <= i < upto ==> s2.queue@[i] == s1.queue@[i],
        forall|i: int| 0 <= i < upto ==> s2.messages@[i] == s1.messages@[i],
        forall|i: int|
            0 <= i < upto ==> s2.users@[(#[trigger] s1.messages@[i]).user_id as int].username@
                == s1.users@[s1.messages@[i].user_id as int].username@,
    ensures
        s2.delivered_pairs(c, upto) == s1.delivered_pairs(c, upto),
        s2.enqueued_pairs(c, upto) == s1.enqueued_pairs(c, upto),
    decreases upto,
{
    if upto > 0 {
        lemma_pairs_frame(s1, s2, c, upto - 1);
    }
}

/// A fresh record carrying the same data.
pub fn duplicate_record(r: &HistoryRecord) -> (d: HistoryRecord)
    ensures
        record_like(d, *r),
{
    HistoryRecord {
        username: r.username.clone(),
        content: r.content.clone(),
        created_at: r.created_at,
    }
}

impl Store {
    /// The (author username, content) view of log entry `i`.
    pub open spec fn entry_pair(self, i: int) -> (Seq<char>, Seq<char>) {
        (self.users@[self.messages@[i].user_id as int].username@, self.messages@[i].content@)
    }

    /// The pairs delivered for chat `c` among the first `upto` queue entries,
    /// in queue order: one pair per `Finished` entry whose message is in `c`.
    pub open spec fn delivered_pairs(self, c: int, upto: int) -> Seq<(Seq<char>, Seq<char>)>
        decreases upto,
    {
        if upto <= 0 {
            Seq::empty()
        } else {
            let rest = self.delivered_pairs(c, upto - 1);
            if self.queue@[upto - 1].status is Finished && self.messages@[upto - 1].chat_id == c {
                rest.push(self.entry_pair(upto - 1))
            } else {
                rest
            }
        }
    }

    /// Like `delivered_pairs`, but for every entry regardless of status: the
    /// pairs chat `c` will have received once the queue drains.
    pub open spec fn enqueued_pairs(self, c: int, upto: int) -> Seq<(Seq<char>, Seq<char>)>
        decreases upto,
    {
        if upto <= 0 {
            Seq::empty()
        } else {
            let rest = self.enqueued_pairs(c, upto - 1);
            if self.messages@[upto - 1].chat_id == c {
                rest.push(self.entry_pair(upto - 1))
            } else {
                rest
            }
        }
    }

    pub open spec fn has_user(self, name: Seq<char>) -> bool {
        exists|i: int| 0 <= i < self.users@.len() && self.users@[i].username@ == name
    }

    /// The index of the user named `name`; meaningful only when `has_user`.
    pub open spec fn user_index(self, name: Seq<char>) -> int {
        choose|i: int| 0 <= i < self.users@.len() && self.users@[i].username@ == name
    }

    pub open spec fn has_chat(self, name: Seq<char>) -> bool {
        exists|i: int| 0 <= i < self.chats@.len() && self.chats@[i].name@ == name
    }

    /// The index of the chat named `name`; meaningful only when `has_chat`.
    pub open spec fn chat_index(self, name: Seq<char>) -> int {
        choose|i: int| 0 <= i < self.chats@.len() && self.chats@[i].name@ == name
    }

    /// Log and queue grow in step and entry `i` references message `i`.
    pub open spec fn log_queue_paired(self) -> bool {
        &&& self.queue@.len() == self.messages@.len()
        &&& forall|i: int|
            0 <= i < self.queue@.len() ==> (#[trigger] self.queue@[i]).message_id == i
    }

    /// Every stored identifier resolves.
    pub open spec fn ids_resolve(self) -> bool {
        &&& forall|i: int|
            0 <= i < self.messages@.len() ==> ((#[trigger] self.messages@[i]).chat_id
                < self.chats@.len() && self.messages@[i].user_id < self.users@.len())
        &&& forall|i: int|
            0 <= i < self.memberships@.len() ==> ((#[trigger] self.memberships@[i]).chat_id
                < self.chats@.len() && self.memberships@[i].user_id < self.users@.len())
    }

    pub open spec fn usernames_unique(self) -> bool {
        forall|i: int, j: int|
            0 <= i < j < self.users@.len() ==> (#[trigger] self.users@[i]).username@ != (
            #[trigger] self.users@[j]).username@
    }

    pub open spec fn chat_names_unique(self) -> bool {
        forall|i: int, j: int|
            0 <= i < j < self.chats@.len() ==> (#[trigger] self.chats@[i]).name@ != (
            #[trigger] self.chats@[j]).name@
    }

    /// A queue entry is `Finished` exactly when its message is `Sent`: the two
    /// transitions happen in the same atomic step.
    pub open spec fn statuses_coupled(self) -> bool {
        forall|i: int|
            0 <= i < self.queue@.len() ==> ((#[trigger] self.queue@[i]).status is Finished
                <==> self.messages@[i].status is Sent)
    }

    /// Enqueue times never decrease along the queue, so queue order is
    /// `queued_at` order with ties broken by insertion order.
    pub open spec fn queue_time_ordered(self) -> bool {
        forall|i: int, j: int|
            0 <= i <= j < self.queue@.len() ==> (#[trigger] self.queue@[i]).queued_at <= (
            #[trigger] self.queue@[j]).queued_at
    }

    /// The worker always finishes the oldest queued entry first, so the
    /// `Finished` entries form a prefix of the queue.
    pub open spec fn finished_is_prefix(self) -> bool {
        forall|i: int, j: int|
            0 <= i < j < self.queue@.len() && (#[trigger] self.queue@[j]).status is Finished ==> (
            #[trigger] self.queue@[i]).status is Finished
    }

    /// Each chat's cache lists exactly its delivered messages, in queue order.
    pub open spec fn cache_coherent(self) -> bool {
        forall|c: int|
            0 <= c < self.chats@.len() ==> history_pairs((#[trigger] self.chats@[c]).history@)
                == self.delivered_pairs(c, self.queue@.len() as int)
    }

    /// Well-formedness of the store: everything the pipeline relies on.
    pub open spec fn wf(self) -> bool {
        &&& self.log_queue_paired()
        &&& self.ids_resolve()
        &&& self.usernames_unique()
        &&& self.chat_names_unique()
        &&& self.statuses_coupled()
        &&& self.queue_time_ordered()
        &&& self.finished_is_prefix()
        &&& self.cache_coherent()
    }

    /// No delivery work is pending.
    pub open spec fn drained(self) -> bool {
        forall|i: int|
            0 <= i < self.queue@.len() ==> (#[trigger] self.queue@[i]).status is Finished
    }

    /// No history record carries a delivery stamp later than `t`. The worker
    /// requires this of its stamp, which keeps every chat's history
    /// stamp-monotone.
    pub open spec fn stamps_at_most(self, t: u64) -> bool {
        forall|c: int, j: int|
            0 <= c < self.chats@.len() && 0 <= j < self.chats@[c].history@.len()
                ==> self.chats@[c].history@[j].created_at <= t
    }

    /// Looks a username up; `Some(i)` is the index of the user so named.
    pub fn resolve_user(&self, username: &str) -> (r: Option<usize>)
        ensures
            match r {
                Some(i) => i < self.users@.len() && self.users@[i as int].username@ == username@,
                None => !self.has_user(username@),
            },
            r is Some <==> self.has_user(username@),
    {
        let n = self.users.len();
        let mut i: usize = 0;
        while i < n
            invariant
                n == self.users@.len(),
                i <= n,
                forall|j: int| 0 <= j < i ==> self.users@[j].username@ != username@,
            decreases n - i,
        {
            if str_eq(self.users[i].username.as_str(), username) {
                return Some(i);
            }
            i += 1;
        }
        None
    }

    /// Looks a chat name up; `Some(i)` is the index of the chat so named.
    pub fn resolve_chat(&self, name: &str) -> (r: Option<usize>)
        ensures
            match r {
                Some(i) => i < self.chats@.len() && self.chats@[i as int].name@ == name@,
                None => !self.has_chat(name@),
            },
            r is Some <==> self.has_chat(name@),
    {
        let n = self.chats.len();
        let mut i: usize = 0;
        while i < n
            invariant
                n == self.chats@.len(),
                i <= n,
                forall|j: int| 0 <= j < i ==> self.chats@[j].name@ != name@,
            decreases n - i,
        {
            if str_eq(self.chats[i].name.as_str(), name) {
                return Some(i);
            }
            i += 1;
        }
        None
    }

    /// Whether an account with this username exists.
    pub fn user_exists(&self, username: &str) -> (r: bool)
        ensures
            r == self.has_user(username@),
    {
        self.resolve_user(username).is_some()
    }

    /// The read path: the materialized history of the chat named `chat_name`.
    /// An existing chat with no delivered messages yields `Ok` of an empty
    /// vector, which is distinct from `Err(NotFound)` for a missing chat.
    pub fn get_history(&self, chat_name: &str) -> (r: Result<Vec<HistoryRecord>, ChatError>)
        requires
            self.wf(),
        ensures
            r is Ok <==> self.has_chat(chat_name@),
            match r {
                Ok(h) => records_like(h@, self.chats@[self.chat_index(chat_name@)].history@),
                Err(e) => e == ChatError::NotFound,
            },
    {
        match self.resolve_chat(chat_name) {
            None => Err(ChatError::NotFound),
            Some(c) => {
                let source = &self.chats[c].history;
                let n = source.len();
                let mut out: Vec<HistoryRecord> = Vec::new();
                let mut i: usize = 0;
                proof {
                    assert(self.chats@[c as int].name@ == chat_name@);
                    assert(self.chat_index(chat_name@) == c as int) by {
                        let k = self.chat_index(chat_name@);
                        assert(self.has_chat(chat_name@));
                    }
                }
                while i < n
                    invariant
                        n == source@.len(),
                        i <= n,
                        out@.len() == i,
                        forall|j: int|
                            0 <= j < i ==> record_like(#[trigger] out@[j], source@[j]),
                    decreases n - i,
                {
                    out.push(duplicate_record(&source[i]));
                    i += 1;
                }
                Ok(out)
            },
        }
    }

    /// Creates a chat room with the given members. Fails with `Conflict` when
    /// the name is taken and with `NotFound` when a member's username does not
    /// resolve; either failure leaves the store unchanged. On success the chat
    /// is appended with an empty history cache, one membership per listed user
    /// is recorded, and nothing else moves.
    pub fn create_chat(&mut self, name: String, users: &Vec<String>, now: u64) -> (r: Result<
        usize,
        ChatError,
    >)
        requires
            old(self).wf(),
        ensures
            final(self).wf(),
            r is Err ==> *final(self) == *old(self),
            old(self).has_chat(name@) ==> r == Err::<usize, ChatError>(ChatError::Conflict),
            r is Ok <==> (!old(self).has_chat(name@) && (forall|k: int|
                0 <= k < users@.len() ==> old(self).has_user(users@[k]@))),
            r is Err ==> (r == Err::<usize, ChatError>(ChatError::Conflict) || r == Err::<
                usize,
                ChatError,
            >(ChatError::NotFound)),
            r matches Ok(c) ==> {
                &&& c == old(self).chats@.len()
                &&& final(self).chats@.len() == old(self).chats@.len() + 1
                &&& forall|j: int|
                    0 <= j < old(self).chats@.len() ==> final(self).chats@[j] == old(
                        self,
                    ).chats@[j]
                &&& final(self).chats@.last().name@ == name@
                &&& final(self).chats@.last().history@.len() == 0
                &&& final(self).memberships@.len() == old(self).memberships@.len() + users@.len()
                &&& forall|j: int|
                    0 <= j < old(self).memberships@.len() ==> final(self).memberships@[j] == old(
                        self,
                    ).memberships@[j]
                &&& forall|k: int|
                    #![trigger users@[k]]
                    0 <= k < users@.len() ==> {
                        let m = final(self).memberships@[old(self).memberships@.len() + k];
                        &&& m.chat_id == c
                        &&& m.user_id < old(self).users@.len()
                        &&& old(self).users@[m.user_id as int].username@ == users@[k]@
                        &&& m.active
                        &&& m.joined_at == now
                    }
            },
            final(self).users@ == old(self).users@,
            final(self).messages@ == old(self).messages@,
            final(self).queue@ == old(self).queue@,
    {
        if self.resolve_chat(name.as_str()).is_some() {
            return Err(ChatError::Conflict);
        }
        let n = users.len();
        let mut ids: Vec<usize> = Vec::new();
        let mut k: usize = 0;
        while k < n
            invariant
                *self == *old(self),
                self.wf(),
                !self.has_chat(name@),
                n == users@.len(),
                k <= n,
                ids@.len() == k,
                forall|j: int|
                    0 <= j < k ==> (#[trigger] ids@[j]) < self.users@.len()
                        && self.users@[ids@[j] as int].username@ == users@[j]@,
            decreases n - k,
        {
            match self.resolve_user(users[k].as_str()) {
                Some(i) => ids.push(i),
                None => {
                    return Err(ChatError::NotFound);
                },
            }
            k += 1;
        }
        let c = self.chats.len();
        let mut joins: Vec<Membership> = Vec::new();
        let mut k2: usize = 0;
        while k2 < n
            invariant
                n == users@.len(),
                n == ids@.len(),
                k2 <= n,
                joins@.len() == k2,
                forall|j: int|
                    0 <= j < k2 ==> (#[trigger] joins@[j]) == (Membership {
                        chat_id: c,
                        user_id: ids@[j],
                        active: true,
                        joined_at: now,
                    }),
            decreases n - k2,
        {
            joins.push(Membership { chat_id: c, user_id: ids[k2], active: true, joined_at: now });
            k2 += 1;
        }
        let ghost s1 = *self;
        self.chats.push(Chat { name, history: Vec::new() });
        self.memberships.append(&mut joins);
        proof {
            assert forall|j: int| 0 <= j < users@.len() implies old(self).has_user(
                users@[j]@,
            ) by {
                assert(old(self).users@[ids@[j] as int].username@ == users@[j]@);
            }
            let len = s1.queue@.len() as int;
            assert forall|cc: int| 0 <= cc < self.chats@.len() implies history_pairs(
                (#[trigger] self.chats@[cc]).history@,
            ) == self.delivered_pairs(cc, self.queue@.len() as int) by {
                if cc < s1.chats@.len() {
                    lemma_pairs_frame(s1, *self, cc, len);
                } else {
                    crate::pipeline::lemma_pairs_absent_chat(*self, cc, len);
                    assert(self.chats@[cc].history@ =~= Seq::<HistoryRecord>::empty());
                    assert(history_pairs(self.chats@[cc].history@) =~= Seq::<
                        (Seq<char>, Seq<char>),
                    >::empty());
                }
            }
        }
        Ok(c)
    }

    /// An empty store.
    pub fn new() -> (s: Store)
        ensures
            s.wf(),
            s.users@.len() == 0,
            s.chats@.len() == 0,
            s.memberships@.len() == 0,
            s.messages@.len() == 0,
            s.queue@.len() == 0,
    {
        Store {
            users: Vec::new(),
            chats: Vec::new(),
            memberships: Vec::new(),
            messages: Vec::new(),
            queue: Vec::new(),
        }
    }
}

} // verus!
