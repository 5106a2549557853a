//! The store of pending transfers and of completed ones.
//!
//! The queue keeps one row per identity, in the order rows came in. The
//! history keeps one entry per identity, newest first.
use crate::text::{chars_of, is_substring, occurs_in, same_text};
use vstd::prelude::*;

verus! {

/// One completed transfer.
#[derive(Debug)]
pub struct History {
    /// The rendered remote link(s).
    pub content: String,
    /// Seconds since the epoch.
    pub timestamp: i64,
    /// The local path the file was sent from.
    pub file: String,
    pub uuid: String,
}

/// One pending transfer.
#[derive(Debug)]
pub struct QueueItem {
    pub local_file: String,
    /// The remote target, without the file extension.
    pub remote_file: String,
    /// Identity derived from `local_file`.
    pub uuid: String,
}

impl Clone for History {
    fn clone(&self) -> (r: History)
        ensures
            r == *self,
    {
        History {
            content: self.content.clone(),
            timestamp: self.timestamp,
            file: self.file.clone(),
            uuid: self.uuid.clone(),
        }
    }
}

impl Clone for QueueItem {
    fn clone(&self) -> (r: QueueItem)
        ensures
            r == *self,
    {
        QueueItem {
            local_file: self.local_file.clone(),
            remote_file: self.remote_file.clone(),
            uuid: self.uuid.clone(),
        }
    }
}

/// Some item of `q` has identity `id`.
pub open spec fn queue_has(q: Seq<QueueItem>, id: Seq<char>) -> bool {
    exists|i: int| 0 <= i < q.len() && q[i].uuid@ == id
}

/// Some entry of `h` has identity `id`.
pub open spec fn history_has(h: Seq<History>, id: Seq<char>) -> bool {
    exists|i: int| 0 <= i < h.len() && h[i].uuid@ == id
}

/// Some entry of `h` holds `content` within its own content.
pub open spec fn content_recorded(h: Seq<History>, content: Seq<char>) -> bool {
    exists|i: int| 0 <= i < h.len() && is_substring(content, h[i].content@)
}

/// No two items of `q` share an identity.
pub open spec fn queue_unique(q: Seq<QueueItem>) -> bool {
    forall|i: int, j: int| 0 <= i < j < q.len() ==> q[i].uuid@ != q[j].uuid@
}

/// No two entries of `h` share an identity.
pub open spec fn history_unique(h: Seq<History>) -> bool {
    forall|i: int, j: int| 0 <= i < j < h.len() ==> h[i].uuid@ != h[j].uuid@
}

/// The entries of `h` go from newest to oldest.
pub open spec fn newest_first(h: Seq<History>) -> bool {
    forall|i: int, j: int| 0 <= i <= j < h.len() ==> h[j].timestamp <= h[i].timestamp
}

/// The queue after enqueueing `item`: unchanged when its identity is there.
pub open spec fn enqueued(q: Seq<QueueItem>, item: QueueItem) -> Seq<QueueItem> {
    if queue_has(q, item.uuid@) {
        q
    } else {
        q.push(item)
    }
}

/// The queue without the items of identity `id`.
pub open spec fn dequeued(q: Seq<QueueItem>, id: Seq<char>) -> Seq<QueueItem>
    decreases q.len(),
{
    if q.len() == 0 {
        q
    } else if q.last().uuid@ == id {
        dequeued(q.drop_last(), id)
    } else {
        dequeued(q.drop_last(), id).push(q.last())
    }
}

/// Dropping the items of identity `id` keeps only items that were there,
/// keeps identities unique, and leaves none of identity `id`.
pub proof fn lemma_dequeued(q: Seq<QueueItem>, id: Seq<char>)
    ensures
        forall|k: int|
            0 <= k < dequeued(q, id).len() ==> exists|m: int|
                0 <= m < q.len() && #[trigger] dequeued(q, id)[k] == q[m],
        queue_unique(q) ==> queue_unique(dequeued(q, id)),
        !queue_has(dequeued(q, id), id),
    decreases q.len(),
{
    if q.len() > 0 {
        let p = q.drop_last();
        lemma_dequeued(p, id);
        let d = dequeued(p, id);
        if q.last().uuid@ != id {
            let e = d.push(q.last());
            assert forall|k: int| 0 <= k < e.len() implies exists|m: int|
                0 <= m < q.len() && #[trigger] e[k] == q[m] by {
                if k < d.len() {
                    let m = choose|m: int| 0 <= m < p.len() && d[k] == p[m];
                    assert(e[k] == q[m]);
                } else {
                    assert(e[k] == q[q.len() - 1]);
                }
            }
            if queue_unique(q) {
                assert forall|a: int, b: int| 0 <= a < b < e.len() implies e[a].uuid@
                    != e[b].uuid@ by {
                    if b == d.len() {
                        let m = choose|m: int| 0 <= m < p.len() && d[a] == p[m];
                        assert(e[a] == q[m]);
                        assert(e[b] == q[q.len() - 1]);
                    } else {
                        assert(e[a] == d[a] && e[b] == d[b]);
                    }
                }
            }
            assert forall|i: int| 0 <= i < e.len() implies e[i].uuid@ != id by {
                if i < d.len() {
                    assert(e[i] == d[i]);
                }
            }
        } else {
            assert forall|k: int| 0 <= k < d.len() implies exists|m: int|
                0 <= m < q.len() && #[trigger] d[k] == q[m] by {
                let m = choose|m: int| 0 <= m < p.len() && d[k] == p[m];
                assert(d[k] == q[m]);
            }
        }
    }
}

/// How many of the leading entries of `h` are strictly newer than `ts`.
pub open spec fn newer_prefix(h: Seq<History>, ts: i64) -> nat
    decreases h.len(),
{
    if h.len() == 0 {
        0
    } else if h[0].timestamp > ts {
        1 + newer_prefix(h.drop_first(), ts)
    } else {
        0
    }
}

/// The newer entries lead `h`, so there are at most as many as entries.
pub proof fn lemma_newer_prefix_bound(h: Seq<History>, ts: i64)
    ensures
        newer_prefix(h, ts) <= h.len(),
    decreases h.len(),
{
    if h.len() > 0 && h[0].timestamp > ts {
        lemma_newer_prefix_bound(h.drop_first(), ts);
    }
}

/// The history after adding `e`: unchanged when its identity is there, else
/// `e` goes after the entries newer than it and before the others.
pub open spec fn with_entry(h: Seq<History>, e: History) -> Seq<History> {
    if history_has(h, e.uuid@) {
        h
    } else {
        h.insert(newer_prefix(h, e.timestamp) as int, e)
    }
}

/// The `limit` newest entries of `h` (all of them without a limit).
pub open spec fn newest(h: Seq<History>, limit: Option<usize>) -> Seq<History> {
    match limit {
        Some(n) => if n < h.len() {
            h.take(n as int)
        } else {
            h
        },
        None => h,
    }
}

/// The pending transfers and the history of completed ones.
#[derive(Debug)]
pub struct Database {
    queue: Vec<QueueItem>,
    history: Vec<History>,
}

impl Database {
    /// The pending items, in the order they came in.
    pub closed spec fn queue(&self) -> Seq<QueueItem> {
        self.queue@
    }

    /// The completed transfers, newest first.
    pub closed spec fn history(&self) -> Seq<History> {
        self.history@
    }

    /// Identities are unique in both tables and the history is newest first.
    pub open spec fn wf(&self) -> bool {
        &&& queue_unique(self.queue())
        &&& history_unique(self.history())
        &&& newest_first(self.history())
    }

    /// An empty store.
    pub fn new() -> (r: Database)
        ensures
            r.wf(),
            r.queue().len() == 0,
            r.history().len() == 0,
    {
        Database { queue: Vec::new(), history: Vec::new() }
    }

    fn queue_position(&self, id: &str) -> (r: Option<usize>)
        ensures
            match r {
                Some(i) => i < self.queue().len() && self.queue()[i as int].uuid@ == id@,
                None => !queue_has(self.queue(), id@),
            },
    {
        let mut i: usize = 0;
        while i < self.queue.len()
            invariant
                i <= self.queue@.len(),
                forall|k: int| 0 <= k < i ==> self.queue@[k].uuid@ != id@,
            decreases self.queue.len() - i,
        {
            if same_text(self.queue[i].uuid.as_str(), id) {
                return Some(i);
            }
            i = i + 1;
        }
        None
    }

    fn history_position(&self, id: &str) -> (r: Option<usize>)
        ensures
            match r {
                Some(i) => i < self.history().len() && self.history()[i as int].uuid@ == id@,
                None => !history_has(self.history(), id@),
            },
    {
        let mut i: usize = 0;
        while i < self.history.len()
            invariant
                i <= self.history@.len(),
                forall|k: int| 0 <= k < i ==> self.history@[k].uuid@ != id@,
            decreases self.history.len() - i,
        {
            if same_text(self.history[i].uuid.as_str(), id) {
                return Some(i);
            }
            i = i + 1;
        }
        None
    }

    /// Enqueues `item` unless an item of the same identity is pending; tells
    /// whether it was added.
    pub fn add_to_queue(&mut self, item: &QueueItem) -> (added: bool)
        requires
            old(self).wf(),
        ensures
            final(self).wf(),
            added == !queue_has(old(self).queue(), item.uuid@),
            final(self).queue() == enqueued(old(self).queue(), *item),
            final(self).history() == old(self).history(),
    {
        match self.queue_position(item.uuid.as_str()) {
            Some(_) => false,
            None => {
                self.queue.push(item.clone());
                true
            },
        }
    }

    /// The pending items, in the order they came in.
    pub fn get_queue(&self) -> (r: Vec<QueueItem>)
        ensures
            r@ == self.queue(),
    {
        let mut r: Vec<QueueItem> = Vec::new();
        let mut i: usize = 0;
        while i < self.queue.len()
            invariant
                i <= self.queue@.len(),
                r@ == self.queue@.take(i as int),
            decreases self.queue.len() - i,
        {
            r.push(self.queue[i].clone());
            assert(r@ =~= self.queue@.take(i + 1));
            i = i + 1;
        }
        assert(r@ =~= self.queue@);
        r
    }

    /// Removes the item of identity `id`; tells whether there was one.
    pub fn remove_from_queue(&mut self, id: &str) -> (removed: bool)
        requires
            old(self).wf(),
        ensures
            final(self).wf(),
            removed == queue_has(old(self).queue(), id@),
            final(self).queue() == dequeued(old(self).queue(), id@),
            final(self).history() == old(self).history(),
    {
        let ghost q = self.queue@;
        let mut kept: Vec<QueueItem> = Vec::new();
        let mut found = false;
        let mut i: usize = 0;
        while i < self.queue.len()
            invariant
                q == self.queue@,
                i <= q.len(),
                kept@ == dequeued(q.take(i as int), id@),
                found == exists|k: int| 0 <= k < i && q[k].uuid@ == id@,
            decreases q.len() - i,
        {
            assert(q.take(i + 1).drop_last() =~= q.take(i as int));
            if same_text(self.queue[i].uuid.as_str(), id) {
                found = true;
            } else {
                kept.push(self.queue[i].clone());
            }
            i = i + 1;
        }
        assert(q.take(q.len() as int) =~= q);
        proof {
            lemma_dequeued(q, id@);
        }
        self.queue = kept;
        found
    }

    /// Records `entry` unless an entry of the same identity is there; it goes
    /// after the newer entries. Tells whether it was added.
    pub fn add_history(&mut self, entry: &History) -> (added: bool)
        requires
            old(self).wf(),
        ensures
            final(self).wf(),
            added == !history_has(old(self).history(), entry.uuid@),
            final(self).history() == with_entry(old(self).history(), *entry),
            final(self).queue() == old(self).queue(),
    {
        if self.history_position(entry.uuid.as_str()).is_some() {
            return false;
        }
        let ghost h = self.history@;
        assert(h.subrange(0, h.len() as int) =~= h);
        let mut i: usize = 0;
        while i < self.history.len() && self.history[i].timestamp > entry.timestamp
            invariant
                h == self.history@,
                newest_first(h),
                i <= h.len(),
                newer_prefix(h, entry.timestamp) == i + newer_prefix(
                    h.subrange(i as int, h.len() as int),
                    entry.timestamp,
                ),
                forall|k: int| 0 <= k < i ==> h[k].timestamp > entry.timestamp,
            decreases h.len() - i,
        {
            assert(h.subrange(i as int, h.len() as int).drop_first() =~= h.subrange(
                i + 1,
                h.len() as int,
            ));
            i = i + 1;
        }
        assert(newer_prefix(h, entry.timestamp) == i);
        self.history.insert(i, entry.clone());
        proof {
            let n = self.history@;
            assert(n == h.insert(i as int, *entry));
            assert forall|a: int, b: int| 0 <= a <= b < n.len() implies n[b].timestamp
                <= n[a].timestamp by {
                if a < i && b == i {
                } else if a == i && b > i {
                    assert(n[b] == h[b - 1]);
                    assert(h[i as int].timestamp <= entry.timestamp);
                }
            }
            assert forall|a: int, b: int| 0 <= a < b < n.len() implies n[a].uuid@
                != n[b].uuid@ by {
                if a == i {
                    assert(n[b] == h[b - 1]);
                } else if b == i {
                    assert(n[a] == h[a]);
                }
            }
        }
        true
    }

    /// The `limit` newest entries (all without a limit), newest first.
    pub fn get_history(&self, limit: Option<usize>) -> (r: Vec<History>)
        ensures
            r@ == newest(self.history(), limit),
    {
        let n: usize = match limit {
            Some(l) => if l < self.history.len() {
                l
            } else {
                self.history.len()
            },
            None => self.history.len(),
        };
        let mut r: Vec<History> = Vec::new();
        let mut i: usize = 0;
        while i < n
            invariant
                n <= self.history@.len(),
                i <= n,
                r@ == self.history@.take(i as int),
            decreases n - i,
        {
            r.push(self.history[i].clone());
            assert(r@ =~= self.history@.take(i + 1));
            i = i + 1;
        }
        assert(self.history@.take(self.history@.len() as int) =~= self.history@);
        r
    }

    /// Whether some entry holds `content` within its own content.
    pub fn has_content(&self, content: &str) -> (r: bool)
        ensures
            r == content_recorded(self.history(), content@),
    {
        let needle = chars_of(content);
        let mut i: usize = 0;
        while i < self.history.len()
            invariant
                needle@ == content@,
                i <= self.history@.len(),
                forall|k: int| 0 <= k < i ==> !is_substring(content@, self.history@[k].content@),
            decreases self.history.len() - i,
        {
            let hay = chars_of(self.history[i].content.as_str());
            if occurs_in(&needle, &hay) {
                return true;
            }
            i = i + 1;
        }
        false
    }
}

/// Enqueueing an identity that is already queued changes nothing: after the
/// same identity is enqueued twice, the queue holds exactly one row of it.
pub proof fn lemma_enqueue_idempotent(q: Seq<QueueItem>, a: QueueItem, b: QueueItem)
    requires
        queue_unique(q),
        a.uuid@ == b.uuid@,
    ensures
        enqueued(enqueued(q, a), b) == enqueued(q, a),
        queue_unique(enqueued(q, a)),
        queue_has(enqueued(q, a), a.uuid@),
        forall|i: int, j: int|
            0 <= i < enqueued(q, a).len() && 0 <= j < enqueued(q, a).len() && enqueued(q, a)[i].uuid@
                == a.uuid@ && enqueued(q, a)[j].uuid@ == a.uuid@ ==> i == j,
{
    let q1 = enqueued(q, a);
    if !queue_has(q, a.uuid@) {
        assert(q1[q.len() as int] == a);
        assert forall|i: int, j: int| 0 <= i < j < q1.len() implies q1[i].uuid@
            != q1[j].uuid@ by {
            if j == q.len() {
                assert(q1[i] == q[i]);
            } else {
                assert(q1[i] == q[i] && q1[j] == q[j]);
            }
        }
    }
    assert(queue_has(q1, a.uuid@));
}

/// The `n` entries a history request returns are the `n` most recent, newest
/// first: none of the entries left out is newer than any returned.
pub proof fn lemma_newest_are_most_recent(h: Seq<History>, n: usize)
    requires
        newest_first(h),
    ensures
        newest(h, Some(n)).len() == if n < h.len() {
            n as int
        } else {
            h.len() as int
        },
        newest_first(newest(h, Some(n))),
        forall|i: int| 0 <= i < newest(h, Some(n)).len() ==> newest(h, Some(n))[i] == h[i],
        forall|i: int, j: int|
            0 <= i < newest(h, Some(n)).len() <= j < h.len() ==> h[j].timestamp <= newest(
                h,
                Some(n),
            )[i].timestamp,
{
}

} // verus!
