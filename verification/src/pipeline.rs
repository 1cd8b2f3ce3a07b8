//! The ingestion endpoint, the delivery worker, and the proofs that tie the
//! work queue to the history caches: FIFO delivery per chat, exactly-once
//! reflection of finished entries, and non-interference across chats.
use vstd::prelude::*;
use crate::ChatError;
use crate::store::{
    Chat, HistoryRecord, Membership, Message, MessageStatus, QueueEntry, QueueStatus, Store,
    history_pairs, lemma_pairs_frame,
};

verus! {

/// What one worker pass did: delivered the queue entry at the given index, or
/// found the queue drained.
#[derive(Clone, Copy, PartialEq, Eq, Structural, Debug)]
pub enum WorkerOutcome {
    Delivered(usize),
    Empty,
}

/// Relies on `chrono::Utc::now`: the number of non-leap microseconds since
/// the Unix epoch, as the system clock reports it. The value depends on the
/// environment, so nothing is promised of it.
#[verifier::external_body]
pub fn now_timestamp() -> (t: i64) {
    chrono::Utc::now().timestamp_micros()
}

/// A clock reading as an unsigned stamp: readings from before the epoch
/// collapse to zero.
pub fn clamp_time(t: i64) -> (r: u64)
    ensures
        t >= 0 ==> r == t as u64,
        t < 0 ==> r == 0,
{
    if t < 0 {
        0
    } else {
        t as u64
    }
}

/// If no message among the first `upto` targets chat `c`, nothing was or will
/// be delivered there.
pub proof fn lemma_pairs_absent_chat(s: Store, c: int, upto: int)
    requires
        upto <= s.messages@.len(),
        forall|i: int| 0 <= i < upto ==> (#[trigger] s.messages@[i]).chat_id != c,
    ensures
        s.delivered_pairs(c, upto) == Seq::<(Seq<char>, Seq<char>)>::empty(),
        s.enqueued_pairs(c, upto) == Seq::<(Seq<char>, Seq<char>)>::empty(),
    decreases upto,
{
    if upto > 0 {
        lemma_pairs_absent_chat(s, c, upto - 1);
    }
}

/// Entries that are not yet finished contribute nothing to the delivered
/// pairs: the sequence stops growing at the first queued entry.
pub proof fn lemma_pairs_stable_suffix(s: Store, c: int, from: int, upto: int)
    requires
        0 <= from <= upto,
        forall|j: int| from <= j < upto ==> !((#[trigger] s.queue@[j]).status is Finished),
    ensures
        s.delivered_pairs(c, upto) == s.delivered_pairs(c, from),
    decreases upto - from,
{
    if upto > from {
        lemma_pairs_stable_suffix(s, c, from, upto - 1);
    }
}

/// Entries whose messages target other chats contribute nothing to chat `c`.
proof fn lemma_enqueued_stable_absent(s: Store, c: int, from: int, upto: int)
    requires
        0 <= from <= upto,
        forall|j: int| from <= j < upto ==> (#[trigger] s.messages@[j]).chat_id != c,
    ensures
        s.enqueued_pairs(c, upto) == s.enqueued_pairs(c, from),
    decreases upto - from,
{
    if upto > from {
        lemma_enqueued_stable_absent(s, c, from, upto - 1);
    }
}

/// Cross-chat isolation: if a store grows only by messages for other chats,
/// what chat `c` has received and will receive is unchanged — ingestion into
/// one chat can never reorder or alter another chat's delivery.
pub proof fn lemma_cross_chat_isolation(s1: Store, s2: Store, c: int)
    requires
        s1.wf(),
        s2.wf(),
        s1.queue@.len() <= s2.queue@.len(),
        forall|i: int| 0 <= i < s1.queue@.len() ==> s2.queue@[i] == s1.queue@[i],
        forall|i: int| 0 <= i < s1.messages@.len() ==> s2.messages@[i] == s1.messages@[i],
        forall|i: int|
            0 <= i < s1.messages@.len() ==> s2.users@[(#[trigger] s1.messages@[i]).user_id
                as int].username@ == s1.users@[s1.messages@[i].user_id as int].username@,
        forall|j: int|
            s1.messages@.len() <= j < s2.messages@.len() ==> (#[trigger] s2.messages@[j]).chat_id
                != c,
    ensures
        s2.enqueued_pairs(c, s2.queue@.len() as int) == s1.enqueued_pairs(
            c,
            s1.queue@.len() as int,
        ),
{
    lemma_pairs_frame(s1, s2, c, s1.queue@.len() as int);
    lemma_enqueued_stable_absent(s2, c, s1.queue@.len() as int, s2.queue@.len() as int);
}

/// Once the queue is drained, delivered and enqueued pairs coincide.
proof fn lemma_drained_pairs(s: Store, c: int, upto: int)
    requires
        upto <= s.queue@.len(),
        s.drained(),
    ensures
        s.delivered_pairs(c, upto) == s.enqueued_pairs(c, upto),
    decreases upto,
{
    if upto > 0 {
        lemma_drained_pairs(s, c, upto - 1);
    }
}

impl Store {
    /// How many of the first `upto` queue entries still await delivery.
    pub open spec fn num_queued(self, upto: int) -> int
        decreases upto,
    {
        if upto <= 0 {
            0
        } else {
            self.num_queued(upto - 1) + if self.queue@[upto - 1].status is Queued {
                1int
            } else {
                0int
            }
        }
    }

    /// How many of the first `upto` queue entries were delivered to chat `c`.
    pub open spec fn num_delivered(self, c: int, upto: int) -> int
        decreases upto,
    {
        if upto <= 0 {
            0
        } else {
            self.num_delivered(c, upto - 1) + if self.queue@[upto - 1].status is Finished
                && self.messages@[upto - 1].chat_id == c {
                1int
            } else {
                0int
            }
        }
    }
}

proof fn lemma_num_queued_nonneg(s: Store, upto: int)
    ensures
        s.num_queued(upto) >= 0,
    decreases upto,
{
    if upto > 0 {
        lemma_num_queued_nonneg(s, upto - 1);
    }
}

/// Finishing one queued entry lowers the queued count by one.
proof fn lemma_num_queued_update(s1: Store, s2: Store, i: int, upto: int)
    requires
        0 <= i,
        forall|j: int| 0 <= j < upto && j != i ==> s2.queue@[j] == s1.queue@[j],
        s1.queue@[i].status is Queued,
        s2.queue@[i].status is Finished,
    ensures
        s2.num_queued(upto) == s1.num_queued(upto) - (if i < upto {
            1int
        } else {
            0int
        }),
    decreases upto,
{
    if upto > 0 {
        lemma_num_queued_update(s1, s2, i, upto - 1);
    }
}

proof fn lemma_delivered_pairs_len(s: Store, c: int, upto: int)
    ensures
        s.delivered_pairs(c, upto).len() == s.num_delivered(c, upto),
    decreases upto,
{
    if upto > 0 {
        lemma_delivered_pairs_len(s, c, upto - 1);
    }
}

/// FIFO delivery: once the queue has drained, a chat's history lists exactly
/// that chat's messages, in enqueue order (ascending `queued_at`, ties broken
/// by insertion order, which is the order of the queue itself).
pub proof fn lemma_fifo_delivery(s: Store, c: int)
    requires
        s.wf(),
        s.drained(),
        0 <= c < s.chats@.len(),
    ensures
        history_pairs(s.chats@[c].history@) == s.enqueued_pairs(c, s.queue@.len() as int),
{
    lemma_drained_pairs(s, c, s.queue@.len() as int);
}

/// Exactly-once delivery: a chat's history holds one record per finished
/// queue entry of that chat and none for a queued one. The cache append and
/// the status transition are one atomic step of the worker, so a replay after
/// a crash cannot append a second record for an entry already finished.
pub proof fn lemma_exactly_once_delivery(s: Store, c: int)
    requires
        s.wf(),
        0 <= c < s.chats@.len(),
    ensures
        s.chats@[c].history@.len() == s.num_delivered(c, s.queue@.len() as int),
{
    lemma_delivered_pairs_len(s, c, s.queue@.len() as int);
}

impl Store {
    /// Ingestion: resolve the chat and the author, then atomically append the
    /// message (status `Processing`) to the log and a matching entry (status
    /// `Queued`, stamped `now`) to the work queue. Nothing else moves: in
    /// particular no history cache changes, so ingesting into one chat cannot
    /// reorder another's delivery.
    pub fn ingest(&mut self, chat_name: &str, username: &str, content: String, now: u64) -> (r:
        Result<(), ChatError>)
        requires
            old(self).wf(),
            forall|i: int|
                0 <= i < old(self).queue@.len() ==> (#[trigger] old(self).queue@[i]).queued_at
                    <= now,
        ensures
            final(self).wf(),
            r is Ok <==> (old(self).has_chat(chat_name@) && old(self).has_user(username@)),
            r matches Err(e) ==> (e == ChatError::NotFound && *final(self) == *old(self)),
            r is Ok ==> {
                &&& final(self).messages@ == old(self).messages@.push(
                    (Message {
                        chat_id: old(self).chat_index(chat_name@) as usize,
                        user_id: old(self).user_index(username@) as usize,
                        content,
                        created_at: now,
                        status: MessageStatus::Processing,
                    }),
                )
                &&& final(self).queue@ == old(self).queue@.push(
                    (QueueEntry {
                        message_id: old(self).queue@.len() as usize,
                        queued_at: now,
                        status: QueueStatus::Queued,
                    }),
                )
                &&& final(self).chats@ == old(self).chats@
                &&& final(self).users@ == old(self).users@
                &&& final(self).memberships@ == old(self).memberships@
            },
    {
        let c = match self.resolve_chat(chat_name) {
            Some(c) => c,
            None => {
                return Err(ChatError::NotFound);
            },
        };
        let u = match self.resolve_user(username) {
            Some(u) => u,
            None => {
                return Err(ChatError::NotFound);
            },
        };
        proof {
            let ci = self.chat_index(chat_name@);
            assert(self.has_chat(chat_name@));
            if ci != c as int {
                assert(self.chats@[ci].name@ == self.chats@[c as int].name@);
            }
            let ui = self.user_index(username@);
            assert(self.has_user(username@));
            if ui != u as int {
                assert(self.users@[ui].username@ == self.users@[u as int].username@);
            }
        }
        let mid = self.messages.len();
        let ghost s1 = *self;
        self.messages.push(
            Message {
                chat_id: c,
                user_id: u,
                content,
                created_at: now,
                status: MessageStatus::Processing,
            },
        );
        self.queue.push(QueueEntry { message_id: mid, queued_at: now, status: QueueStatus::Queued });
        proof {
            let len = s1.queue@.len() as int;
            assert forall|cc: int| 0 <= cc < self.chats@.len() implies history_pairs(
                (#[trigger] self.chats@[cc]).history@,
            ) == self.delivered_pairs(cc, self.queue@.len() as int) by {
                lemma_pairs_frame(s1, *self, cc, len);
                assert(self.delivered_pairs(cc, len + 1) == self.delivered_pairs(cc, len));
            }
        }
        Ok(())
    }

    /// Ingestion stamped by the system clock. The enqueue time is the clock
    /// reading, pulled up to the newest entry's `queued_at` if the clock
    /// stepped backwards, so the queue stays time-ordered.
    pub fn ingest_now(&mut self, chat_name: &str, username: &str, content: String) -> (r: Result<
        (),
        ChatError,
    >)
        requires
            old(self).wf(),
        ensures
            final(self).wf(),
            r is Ok <==> (old(self).has_chat(chat_name@) && old(self).has_user(username@)),
            r matches Err(e) ==> (e == ChatError::NotFound && *final(self) == *old(self)),
            r is Ok ==> {
                let t = final(self).queue@.last().queued_at;
                &&& final(self).messages@ == old(self).messages@.push(
                    (Message {
                        chat_id: old(self).chat_index(chat_name@) as usize,
                        user_id: old(self).user_index(username@) as usize,
                        content,
                        created_at: t,
                        status: MessageStatus::Processing,
                    }),
                )
                &&& final(self).queue@ == old(self).queue@.push(
                    (QueueEntry {
                        message_id: old(self).queue@.len() as usize,
                        queued_at: t,
                        status: QueueStatus::Queued,
                    }),
                )
            },
            r is Ok ==> (final(self).chats@ == old(self).chats@ && final(self).users@ == old(
                self,
            ).users@ && final(self).memberships@ == old(self).memberships@),
    {
        let t0 = clamp_time(now_timestamp());
        let n = self.queue.len();
        let now = if n > 0 {
            let last = self.queue[n - 1].queued_at;
            if t0 < last {
                last
            } else {
                t0
            }
        } else {
            t0
        };
        proof {
            assert forall|i: int|
                0 <= i < self.queue@.len() implies (#[trigger] self.queue@[i]).queued_at
                <= now by {
                assert(self.queue@[i].queued_at <= self.queue@[self.queue@.len() - 1].queued_at);
            }
        }
        self.ingest(chat_name, username, content, now)
    }

    /// The poll of the worker: the index of the oldest queued entry. Since
    /// enqueue times never decrease along the queue and finished entries form
    /// a prefix, this is the first entry still `Queued`, and every entry
    /// before it is `Finished`. `None` exactly when the queue is drained.
    pub fn poll_next(&self) -> (r: Option<usize>)
        ensures
            match r {
                Some(i) => i < self.queue@.len() && self.queue@[i as int].status is Queued
                    && forall|j: int| 0 <= j < i ==> (#[trigger] self.queue@[j]).status is Finished,
                None => self.drained(),
            },
            r is None <==> self.drained(),
    {
        let n = self.queue.len();
        let mut i: usize = 0;
        while i < n
            invariant
                n == self.queue@.len(),
                i <= n,
                forall|j: int| 0 <= j < i ==> (#[trigger] self.queue@[j]).status is Finished,
            decreases n - i,
        {
            if self.queue[i].status == QueueStatus::Queued {
                return Some(i);
            }
            i += 1;
        }
        None
    }

    /// One pass of the delivery worker. If the queue is drained, nothing
    /// happens. Otherwise the oldest queued entry is delivered in one atomic
    /// step: a record `(author, content, now)` is appended to the target
    /// chat's history cache, the entry becomes `Finished`, and its message
    /// becomes `Sent`. Every other chat's history, and every other entry, is
    /// left exactly as it was. The stamp `now` may not precede any stamp
    /// already delivered, so history stamps never decrease along a cache.
    pub fn worker_step(&mut self, now: u64) -> (r: WorkerOutcome)
        requires
            old(self).wf(),
            old(self).stamps_at_most(now),
        ensures
            final(self).wf(),
            final(self).stamps_at_most(now),
            r == WorkerOutcome::Empty <==> old(self).drained(),
            r is Empty ==> *final(self) == *old(self),
            r matches WorkerOutcome::Delivered(i) ==> {
                &&& i < old(self).queue@.len()
                &&& old(self).queue@[i as int].status is Queued
                &&& forall|j: int|
                    0 <= j < i ==> (#[trigger] old(self).queue@[j]).status is Finished
                &&& final(self).queue@ == old(self).queue@.update(
                    i as int,
                    (QueueEntry { status: QueueStatus::Finished, ..old(self).queue@[i as int] }),
                )
                &&& final(self).messages@ == old(self).messages@.update(
                    i as int,
                    (Message { status: MessageStatus::Sent, ..old(self).messages@[i as int] }),
                )
                &&& final(self).users@ == old(self).users@
                &&& final(self).memberships@ == old(self).memberships@
                &&& final(self).chats@.len() == old(self).chats@.len()
                &&& {
                    let c = old(self).messages@[i as int].chat_id as int;
                    let h0 = old(self).chats@[c].history@;
                    &&& forall|d: int|
                        0 <= d < old(self).chats@.len() && d != c ==> final(self).chats@[d] == old(
                            self,
                        ).chats@[d]
                    &&& final(self).chats@[c].name == old(self).chats@[c].name
                    &&& final(self).chats@[c].history@.len() == h0.len() + 1
                    &&& forall|j: int|
                        0 <= j < h0.len() ==> final(self).chats@[c].history@[j] == h0[j]
                    &&& final(self).chats@[c].history@.last().username@ == old(self).users@[old(
                        self,
                    ).messages@[i as int].user_id as int].username@
                    &&& final(self).chats@[c].history@.last().content@ == old(self).messages@[i
                        as int].content@
                    &&& final(self).chats@[c].history@.last().created_at == now
                }
            },
            final(self).num_queued(final(self).queue@.len() as int) == old(self).num_queued(
                old(self).queue@.len() as int,
            ) - (if old(self).drained() {
                0int
            } else {
                1int
            }),
    {
        let i = match self.poll_next() {
            Some(i) => i,
            None => {
                return WorkerOutcome::Empty;
            },
        };
        let mid = self.queue[i].message_id;
        proof {
            assert(self.queue@[i as int].message_id == i as int);
        }
        let c = self.messages[mid].chat_id;
        let u = self.messages[mid].user_id;
        let author = self.users[u].username.clone();
        let content = self.messages[mid].content.clone();
        let ghost s1 = *self;
        // The atomic step: cache append and both status transitions together.
        self.chats[c].history.push(
            HistoryRecord { username: author, content, created_at: now },
        );
        self.queue[i].status = QueueStatus::Finished;
        self.messages[mid].status = MessageStatus::Sent;
        proof {
            let len = s1.queue@.len() as int;
            let ii = i as int;
            let cc = c as int;
            assert forall|j: int| ii <= j < len implies !((#[trigger] s1.queue@[j]).status
                is Finished) by {
                if j > ii && s1.queue@[j].status is Finished {
                    assert(s1.queue@[ii].status is Finished);
                }
            }
            assert forall|d: int| 0 <= d < self.chats@.len() implies history_pairs(
                (#[trigger] self.chats@[d]).history@,
            ) == self.delivered_pairs(d, len) by {
                lemma_pairs_frame(s1, *self, d, ii);
                lemma_pairs_stable_suffix(s1, d, ii, len);
                lemma_pairs_stable_suffix(*self, d, ii + 1, len);
                if d == cc {
                    assert(history_pairs(self.chats@[d].history@) =~= history_pairs(
                        s1.chats@[d].history@,
                    ).push(s1.entry_pair(ii)));
                } else {
                    assert(history_pairs(self.chats@[d].history@) =~= history_pairs(
                        s1.chats@[d].history@,
                    ));
                }
            }
            lemma_num_queued_update(s1, *self, ii, len);
        }
        WorkerOutcome::Delivered(i)
    }

    /// The latest delivery stamp present in any history cache, or zero when
    /// there is none.
    pub fn max_stamp(&self) -> (m: u64)
        ensures
            self.stamps_at_most(m),
    {
        let mut m: u64 = 0;
        let nc = self.chats.len();
        let mut c: usize = 0;
        while c < nc
            invariant
                nc == self.chats@.len(),
                c <= nc,
                forall|d: int, j: int|
                    0 <= d < c && 0 <= j < self.chats@[d].history@.len()
                        ==> self.chats@[d].history@[j].created_at <= m,
            decreases nc - c,
        {
            let nh = self.chats[c].history.len();
            let mut j: usize = 0;
            while j < nh
                invariant
                    c < nc,
                    nc == self.chats@.len(),
                    nh == self.chats@[c as int].history@.len(),
                    j <= nh,
                    forall|d: int, jj: int|
                        0 <= d < c && 0 <= jj < self.chats@[d].history@.len()
                            ==> self.chats@[d].history@[jj].created_at <= m,
                    forall|jj: int|
                        0 <= jj < j ==> self.chats@[c as int].history@[jj].created_at <= m,
                decreases nh - j,
            {
                let t = self.chats[c].history[j].created_at;
                if t > m {
                    m = t;
                }
                j += 1;
            }
            c += 1;
        }
        m
    }

    /// One worker pass stamped by the system clock, pulled up to the latest
    /// stamp already delivered if the clock stepped backwards: histories stay
    /// stamp-monotone with nothing demanded of the caller.
    pub fn worker_step_now(&mut self) -> (r: WorkerOutcome)
        requires
            old(self).wf(),
        ensures
            final(self).wf(),
            r == WorkerOutcome::Empty <==> old(self).drained(),
            r is Empty ==> *final(self) == *old(self),
            r matches WorkerOutcome::Delivered(i) ==> {
                &&& i < old(self).queue@.len()
                &&& old(self).queue@[i as int].status is Queued
                &&& forall|j: int|
                    0 <= j < i ==> (#[trigger] old(self).queue@[j]).status is Finished
                &&& final(self).queue@ == old(self).queue@.update(
                    i as int,
                    (QueueEntry { status: QueueStatus::Finished, ..old(self).queue@[i as int] }),
                )
                &&& final(self).messages@ == old(self).messages@.update(
                    i as int,
                    (Message { status: MessageStatus::Sent, ..old(self).messages@[i as int] }),
                )
                &&& final(self).users@ == old(self).users@
                &&& final(self).memberships@ == old(self).memberships@
                &&& final(self).chats@.len() == old(self).chats@.len()
                &&& {
                    let c = old(self).messages@[i as int].chat_id as int;
                    let h0 = old(self).chats@[c].history@;
                    &&& forall|d: int|
                        0 <= d < old(self).chats@.len() && d != c ==> final(self).chats@[d] == old(
                            self,
                        ).chats@[d]
                    &&& final(self).chats@[c].name == old(self).chats@[c].name
                    &&& final(self).chats@[c].history@.len() == h0.len() + 1
                    &&& forall|j: int|
                        0 <= j < h0.len() ==> final(self).chats@[c].history@[j] == h0[j]
                    &&& final(self).chats@[c].history@.last().username@ == old(self).users@[old(
                        self,
                    ).messages@[i as int].user_id as int].username@
                    &&& final(self).chats@[c].history@.last().content@ == old(self).messages@[i
                        as int].content@
                    &&& old(self).stamps_at_most(
                        final(self).chats@[c].history@.last().created_at,
                    )
                }
            },
    {
        let t0 = clamp_time(now_timestamp());
        let m = self.max_stamp();
        let now = if t0 < m {
            m
        } else {
            t0
        };
        self.worker_step(now)
    }

    /// Runs the worker until the queue is drained, stamping every record
    /// delivered by this call with `now`. The log and the queue keep their
    /// entries (statuses all terminal afterwards), accounts and memberships
    /// do not move, and each chat's history is only ever extended.
    pub fn drain(&mut self, now: u64)
        requires
            old(self).wf(),
            old(self).stamps_at_most(now),
        ensures
            final(self).wf(),
            final(self).drained(),
            final(self).stamps_at_most(now),
            forall|c: int, j: int|
                (0 <= c < old(self).chats@.len() && old(self).chats@[c].history@.len() <= j
                    && j < final(self).chats@[c].history@.len())
                    ==> final(self).chats@[c].history@[j].created_at == now,
            final(self).users@ == old(self).users@,
            final(self).memberships@ == old(self).memberships@,
            final(self).queue@.len() == old(self).queue@.len(),
            final(self).messages@.len() == old(self).messages@.len(),
            forall|i: int|
                0 <= i < old(self).messages@.len() ==> final(self).messages@[i] == (Message {
                    status: MessageStatus::Sent,
                    ..old(self).messages@[i]
                }),
            forall|i: int|
                0 <= i < old(self).queue@.len() ==> final(self).queue@[i] == (QueueEntry {
                    status: QueueStatus::Finished,
                    ..old(self).queue@[i]
                }),
            final(self).chats@.len() == old(self).chats@.len(),
            forall|c: int|
                0 <= c < old(self).chats@.len() ==> (#[trigger] final(self).chats@[c]).name == old(
                    self,
                ).chats@[c].name,
            forall|c: int, j: int|
                0 <= c < old(self).chats@.len() && 0 <= j < old(self).chats@[c].history@.len()
                    ==> final(self).chats@[c].history@[j] == old(self).chats@[c].history@[j],
            forall|c: int|
                0 <= c < old(self).chats@.len() ==> (#[trigger] final(self).chats@[c]).history@.len()
                    >= old(self).chats@[c].history@.len(),
    {
        loop
            invariant
                self.wf(),
                self.stamps_at_most(now),
                forall|c: int, j: int|
                    0 <= c < old(self).chats@.len() && old(self).chats@[c].history@.len() <= j
                        < self.chats@[c].history@.len() ==> self.chats@[c].history@[j].created_at
                        == now,
                self.users@ == old(self).users@,
                self.memberships@ == old(self).memberships@,
                self.queue@.len() == old(self).queue@.len(),
                self.messages@.len() == old(self).messages@.len(),
                forall|i: int|
                    0 <= i < old(self).messages@.len() ==> (Message {
                        status: MessageStatus::Sent,
                        ..(#[trigger] self.messages@[i])
                    }) == (Message { status: MessageStatus::Sent, ..old(self).messages@[i] }),
                forall|i: int|
                    0 <= i < old(self).messages@.len()
                        && old(self).messages@[i].status is Sent ==> self.messages@[i].status
                        is Sent,
                forall|i: int|
                    0 <= i < old(self).queue@.len() ==> (QueueEntry {
                        status: QueueStatus::Finished,
                        ..(#[trigger] self.queue@[i])
                    }) == (QueueEntry { status: QueueStatus::Finished, ..old(self).queue@[i] }),
                self.chats@.len() == old(self).chats@.len(),
                forall|c: int|
                    0 <= c < old(self).chats@.len() ==> (#[trigger] self.chats@[c]).name == old(
                        self,
                    ).chats@[c].name,
                forall|c: int, j: int|
                    0 <= c < old(self).chats@.len() && 0 <= j < old(self).chats@[c].history@.len()
                        ==> self.chats@[c].history@[j] == old(self).chats@[c].history@[j],
                forall|c: int|
                    0 <= c < old(self).chats@.len() ==> (#[trigger] self.chats@[c]).history@.len()
                        >= old(self).chats@[c].history@.len(),
            decreases self.num_queued(self.queue@.len() as int),
        {
            proof {
                lemma_num_queued_nonneg(*self, self.queue@.len() as int);
            }
            let ghost prev = *self;
            match self.worker_step(now) {
                WorkerOutcome::Delivered(di) => {
                    proof {
                        lemma_num_queued_nonneg(*self, self.queue@.len() as int);
                        let tc = prev.messages@[di as int].chat_id as int;
                        assert forall|c: int, j: int|
                            (0 <= c < old(self).chats@.len() && old(
                                self,
                            ).chats@[c].history@.len() <= j && j
                                < self.chats@[c].history@.len()) implies self.chats@[c].history@[j].created_at
                            == now by {
                            if c != tc {
                                assert(self.chats@[c] == prev.chats@[c]);
                            } else if j < prev.chats@[c].history@.len() {
                                assert(self.chats@[c].history@[j] == prev.chats@[c].history@[j]);
                            } else {
                                assert(j == self.chats@[c].history@.len() - 1);
                                assert(self.chats@[c].history@.last().created_at == now);
                            }
                        }
                    }
                },
                WorkerOutcome::Empty => {
                    proof {
                        assert forall|i: int|
                            0 <= i < old(self).messages@.len() implies self.messages@[i]
                            == (Message {
                            status: MessageStatus::Sent,
                            ..old(self).messages@[i]
                        }) by {
                            assert(self.queue@[i].status is Finished);
                            assert(self.messages@[i].status is Sent);
                        }
                        assert forall|i: int|
                            0 <= i < old(self).queue@.len() implies self.queue@[i] == (QueueEntry {
                            status: QueueStatus::Finished,
                            ..old(self).queue@[i]
                        }) by {
                            assert(self.queue@[i].status is Finished);
                        }
                    }
                    return ;
                },
            }
        }
    }
}

} // verus!
