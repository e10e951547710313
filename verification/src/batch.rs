//! The batch accumulator: per-topic batches, size/byte/timer flush triggers,
//! and the resolution of every row's acknowledgment after a flush.
//!
//! The accumulator is the single owner of all batch state. It is driven by a
//! control loop (one event at a time, via [`Batcher::step`]); the sink call
//! itself is I/O and happens outside, between [`Batcher::flush_subject`]
//! handing a [`FlushJob`] out and [`resolve_flush`] turning the sink's
//! outcome into exactly one disposition per row.
//!
//! The acknowledgment handle type `H` is opaque to the accumulator: handles
//! are only moved, never copied, so each one can receive at most one
//! disposition, and the contracts state that each receives exactly one.

use vstd::prelude::*;

use crate::classify::is_permanent_ch_error;
use crate::classify::spec_is_permanent;
use crate::route::Route;
use crate::route::str_eq;

verus! {

/// The three terminal dispositions of a queue message.
#[derive(Clone, Copy, Debug, PartialEq, Eq, Structural)]
pub enum Disposition {
    /// The row was durably written; the queue may forget the message.
    Ack,
    /// Transient failure; the queue should redeliver the message.
    Nak,
    /// Permanent failure or unroutable topic; never redeliver.
    Term,
}

/// One row awaiting flush: its serialized payload and the capability through
/// which its disposition is issued.
pub struct BatchEntry<H> {
    pub payload: Vec<u8>,
    pub handle: H,
}

/// The rows accumulated for one topic since that topic's last flush.
pub struct SubjectBatch<H> {
    pub subject: String,
    pub route: Route,
    pub rows: Vec<BatchEntry<H>>,
    pub bytes: usize,
}

/// A batch removed from the accumulator, ready for one bulk-insert call.
pub struct FlushJob<H> {
    pub subject: String,
    pub route: Route,
    pub rows: Vec<BatchEntry<H>>,
}

/// What the sink reported for one bulk-insert request. The detail of a
/// failure retains the response text so the caller can classify permanence.
pub enum SinkResult {
    Success,
    Failure { detail: String },
}

/// The disposition issued to one handle after a flush.
pub struct Resolution<H> {
    pub handle: H,
    pub disposition: Disposition,
}

/// Sum of the payload lengths of a row sequence.
pub open spec fn sum_payload_bytes<H>(rows: Seq<BatchEntry<H>>) -> int
    decreases rows.len(),
{
    if rows.len() == 0 {
        0
    } else {
        sum_payload_bytes(rows.drop_last()) + rows.last().payload@.len()
    }
}

impl<H> SubjectBatch<H> {
    /// A live batch holds at least one row, and its byte counter equals the
    /// sum of its payload lengths.
    pub open spec fn wf(self) -> bool {
        &&& self.rows@.len() >= 1
        &&& self.bytes == sum_payload_bytes(self.rows@)
    }
}

/// No two batches in the sequence are keyed by the same topic.
pub open spec fn subjects_distinct<H>(s: Seq<SubjectBatch<H>>) -> bool {
    forall|i: int, j: int|
        0 <= i < j < s.len() ==> s[i].subject@ != s[j].subject@
}

/// Some batch in the sequence is keyed by topic `t`.
pub open spec fn has_subject<H>(s: Seq<SubjectBatch<H>>, t: Seq<char>) -> bool {
    exists|i: int| 0 <= i < s.len() && s[i].subject@ == t
}

/// The index of the batch keyed by `t` (meaningful when `has_subject`).
pub open spec fn subject_index<H>(s: Seq<SubjectBatch<H>>, t: Seq<char>) -> int {
    choose|i: int| 0 <= i < s.len() && s[i].subject@ == t
}

/// The batch keyed by `t` (meaningful when `has_subject`).
pub open spec fn batch_for<H>(s: Seq<SubjectBatch<H>>, t: Seq<char>) -> SubjectBatch<H> {
    s[subject_index(s, t)]
}

proof fn lemma_subject_index_unique<H>(s: Seq<SubjectBatch<H>>, t: Seq<char>, i: int)
    requires
        subjects_distinct(s),
        0 <= i < s.len(),
        s[i].subject@ == t,
    ensures
        has_subject(s, t),
        subject_index(s, t) == i,
        batch_for(s, t) == s[i],
{
    assert(has_subject(s, t));
    let j = subject_index(s, t);
    assert(0 <= j < s.len() && s[j].subject@ == t);
    if i != j {
        assert(s[i].subject@ != s[j].subject@);
    }
}

/// Effect of `swap_remove(i)` on the topic-keyed view of the batch list:
/// the removed batch's topic is gone, every other topic keeps its batch.
proof fn lemma_swap_remove_effect<H>(pre: Seq<SubjectBatch<H>>, post: Seq<SubjectBatch<H>>, i: int)
    requires
        subjects_distinct(pre),
        0 <= i < pre.len(),
        post == pre.update(i, pre.last()).drop_last(),
    ensures
        subjects_distinct(post),
        !has_subject(post, pre[i].subject@),
        forall|t: Seq<char>|
            t != pre[i].subject@ ==> (#[trigger] has_subject(post, t) <==> has_subject(pre, t)),
        forall|t: Seq<char>|
            t != pre[i].subject@ && has_subject(pre, t) ==> #[trigger] batch_for(post, t)
                == batch_for(pre, t),
{
    let n = pre.len() as int;
    assert(post.len() == n - 1);
    assert(forall|p: int|
        0 <= p < n - 1 ==> post[p] == (if p == i {
            pre[n - 1]
        } else {
            pre[p]
        }));
    assert forall|p: int| 0 <= p < n - 1 implies post[p].subject@ != pre[i].subject@ by {
        if p == i {
            assert(post[p] == pre[n - 1]);
            assert(i < n - 1);
        }
    }
    assert forall|t: Seq<char>|
        t != pre[i].subject@ && has_subject(pre, t) implies has_subject(post, t) by {
        let j = choose|j: int| 0 <= j < n && pre[j].subject@ == t;
        if j == n - 1 {
            assert(i != j);
            assert(post[i] == pre[n - 1]);
        } else if j == i {
            assert(false);
        } else {
            assert(post[j] == pre[j]);
        }
    }
    assert forall|t: Seq<char>|
        t != pre[i].subject@ && has_subject(pre, t) implies #[trigger] batch_for(post, t)
        == batch_for(pre, t) by {
        let j = subject_index(pre, t);
        assert(0 <= j < n && pre[j].subject@ == t);
        let p = subject_index(post, t);
        assert(0 <= p < n - 1 && post[p].subject@ == t);
        if p == i {
            assert(post[p] == pre[n - 1]);
            lemma_subject_index_unique(pre, t, n - 1);
        } else {
            assert(post[p] == pre[p]);
            lemma_subject_index_unique(pre, t, p);
        }
    }
}

/// Effect of pushing a batch with a fresh topic: that topic maps to the new
/// batch, every other topic keeps its batch.
proof fn lemma_push_effect<H>(pre: Seq<SubjectBatch<H>>, post: Seq<SubjectBatch<H>>, b: SubjectBatch<H>)
    requires
        subjects_distinct(pre),
        !has_subject(pre, b.subject@),
        post == pre.push(b),
    ensures
        subjects_distinct(post),
        has_subject(post, b.subject@),
        batch_for(post, b.subject@) == b,
        forall|t: Seq<char>|
            t != b.subject@ ==> (#[trigger] has_subject(post, t) <==> has_subject(pre, t)),
        forall|t: Seq<char>|
            t != b.subject@ && has_subject(pre, t) ==> #[trigger] batch_for(post, t) == batch_for(
                pre,
                t,
            ),
{
    let n = pre.len() as int;
    assert(post.len() == n + 1);
    assert(post[n] == b);
    assert(forall|p: int| 0 <= p < n ==> post[p] == pre[p]);
    assert forall|i: int, j: int| 0 <= i < j < post.len() implies post[i].subject@
        != post[j].subject@ by {
        if j == n {
            assert(post[i] == pre[i]);
            if post[i].subject@ == b.subject@ {
                assert(has_subject(pre, b.subject@));
            }
        }
    }
    lemma_subject_index_unique(post, b.subject@, n);
    assert forall|t: Seq<char>| t != b.subject@ && has_subject(post, t) implies has_subject(
        pre,
        t,
    ) by {
        let p = choose|p: int| 0 <= p < post.len() && post[p].subject@ == t;
        assert(p != n);
        assert(pre[p].subject@ == t);
    }
    assert forall|t: Seq<char>|
        t != b.subject@ && has_subject(pre, t) implies #[trigger] batch_for(post, t) == batch_for(
        pre,
        t,
    ) by {
        let j = subject_index(pre, t);
        assert(0 <= j < n && pre[j].subject@ == t);
        lemma_subject_index_unique(post, t, j);
    }
}

/// The batch accumulator. Owns every live [`SubjectBatch`]; a topic has at
/// most one live batch at any time.
pub struct Batcher<H> {
    pub max_rows: usize,
    pub max_bytes: usize,
    pub batches: Vec<SubjectBatch<H>>,
}

impl<H> Batcher<H> {
    /// Structural invariant: topics are unique and every batch is
    /// well-formed (non-empty, byte counter equal to the payload sum).
    pub open spec fn wf(self) -> bool {
        &&& subjects_distinct(self.batches@)
        &&& forall|i: int| 0 <= i < self.batches@.len() ==> (#[trigger] self.batches@[i]).wf()
    }

    /// Topic `t` has a live batch.
    pub open spec fn has_topic(self, t: Seq<char>) -> bool {
        has_subject(self.batches@, t)
    }

    /// The rows pending for topic `t`, in arrival order.
    pub open spec fn rows_of(self, t: Seq<char>) -> Seq<BatchEntry<H>> {
        batch_for(self.batches@, t).rows@
    }

    /// The route recorded for topic `t`.
    pub open spec fn route_of(self, t: Seq<char>) -> Route {
        batch_for(self.batches@, t).route
    }

    /// The accumulated payload bytes for topic `t`.
    pub open spec fn bytes_of(self, t: Seq<char>) -> int {
        batch_for(self.batches@, t).bytes as int
    }

    /// A batch with these rows meets a flush threshold of this accumulator.
    pub open spec fn due_rows(self, rows: Seq<BatchEntry<H>>) -> bool {
        rows.len() >= self.max_rows || sum_payload_bytes(rows) >= self.max_bytes
    }

    /// Topic `t`'s live batch meets a flush threshold.
    pub open spec fn is_due(self, t: Seq<char>) -> bool {
        self.has_topic(t) && self.due_rows(self.rows_of(t))
    }

    /// The thresholds are the same as in `other`.
    pub open spec fn same_config(self, other: Self) -> bool {
        self.max_rows == other.max_rows && self.max_bytes == other.max_bytes
    }

    /// Every topic other than `t` has the same batch as in `pre`.
    pub open spec fn same_except(self, pre: Self, t: Seq<char>) -> bool {
        forall|u: Seq<char>|
            u != t ==> {
                &&& (#[trigger] self.has_topic(u) <==> pre.has_topic(u))
                &&& (pre.has_topic(u) ==> batch_for(self.batches@, u) == batch_for(
                    pre.batches@,
                    u,
                ))
            }
    }

    /// A fresh accumulator with the given flush thresholds and no batches.
    pub fn new(max_rows: usize, max_bytes: usize) -> (r: Self)
        ensures
            r.wf(),
            r.max_rows == max_rows,
            r.max_bytes == max_bytes,
            forall|t: Seq<char>| !r.has_topic(t),
    {
        let r = Batcher { max_rows, max_bytes, batches: Vec::new() };
        assert(forall|t: Seq<char>| !r.has_topic(t));
        r
    }

    /// The index of topic `subject`'s batch, if it has one.
    fn find(&self, subject: &str) -> (r: Option<usize>)
        ensures
            match r {
                Some(i) => 0 <= i < self.batches@.len() && self.batches@[i as int].subject@
                    == subject@,
                None => !self.has_topic(subject@),
            },
    {
        let n = self.batches.len();
        let mut i: usize = 0;
        while i < n
            invariant
                n == self.batches@.len(),
                0 <= i <= n,
                forall|j: int| 0 <= j < i ==> self.batches@[j].subject@ != subject@,
            decreases n - i,
        {
            if str_eq(self.batches[i].subject.as_str(), subject) {
                return Some(i);
            }
            i += 1;
        }
        None
    }

    /// Appends one event to its topic's batch, creating the batch on the
    /// first event for that topic since its last flush. Does not flush.
    pub fn add(&mut self, subject: String, route: Route, payload: Vec<u8>, handle: H)
        requires
            old(self).wf(),
            old(self).has_topic(subject@) ==> old(self).bytes_of(subject@) + payload@.len()
                <= usize::MAX,
        ensures
            final(self).wf(),
            final(self).same_config(*old(self)),
            final(self).has_topic(subject@),
            final(self).same_except(*old(self), subject@),
            final(self).rows_of(subject@) == if old(self).has_topic(subject@) {
                old(self).rows_of(subject@).push(BatchEntry { payload, handle })
            } else {
                seq![BatchEntry { payload, handle }]
            },
            final(self).route_of(subject@) == if old(self).has_topic(subject@) {
                old(self).route_of(subject@)
            } else {
                route
            },
    {
        let ghost pre = self.batches@;
        let payload_len = payload.len();
        let entry = BatchEntry { payload, handle };
        let ghost ge = entry;
        match self.find(subject.as_str()) {
            Some(i) => {
                proof {
                    lemma_subject_index_unique(pre, subject@, i as int);
                }
                let mut b = self.batches.swap_remove(i);
                let ghost mid = self.batches@;
                proof {
                    lemma_swap_remove_effect(pre, mid, i as int);
                }
                b.bytes = b.bytes + payload_len;
                b.rows.push(entry);
                proof {
                    assert(pre[i as int].wf());
                    assert(b.rows@.drop_last() =~= pre[i as int].rows@);
                    assert(sum_payload_bytes(b.rows@) == sum_payload_bytes(pre[i as int].rows@)
                        + ge.payload@.len());
                    assert(b.wf());
                }
                self.batches.push(b);
                proof {
                    lemma_push_effect(mid, self.batches@, b);
                    lemma_subject_index_unique(self.batches@, subject@, mid.len() as int);
                }
            },
            None => {
                let mut rows: Vec<BatchEntry<H>> = Vec::new();
                rows.push(entry);
                let b = SubjectBatch { subject, route, rows, bytes: payload_len };
                proof {
                    assert(b.rows@.drop_last() =~= Seq::<BatchEntry<H>>::empty());
                    assert(sum_payload_bytes(Seq::<BatchEntry<H>>::empty()) == 0);
                    assert(sum_payload_bytes(b.rows@) == ge.payload@.len());
                    assert(b.wf());
                }
                self.batches.push(b);
                proof {
                    lemma_push_effect(pre, self.batches@, b);
                    assert(self.rows_of(b.subject@) =~= seq![b.rows@[0]]);
                }
            },
        }
    }

    /// Removes topic `subject`'s batch and hands it out for flushing; the
    /// batch is gone from the accumulator whatever the flush outcome, so a
    /// concurrent append for the same topic starts a fresh batch. A topic
    /// with nothing pending yields `None`: no sink call, no dispositions.
    pub fn flush_subject(&mut self, subject: &str) -> (r: Option<FlushJob<H>>)
        requires
            old(self).wf(),
        ensures
            final(self).wf(),
            final(self).same_config(*old(self)),
            !final(self).has_topic(subject@),
            final(self).same_except(*old(self), subject@),
            match r {
                Some(job) => {
                    &&& old(self).has_topic(subject@)
                    &&& job.subject@ == subject@
                    &&& job.route == old(self).route_of(subject@)
                    &&& job.rows@ == old(self).rows_of(subject@)
                    &&& job.rows@.len() >= 1
                },
                None => !old(self).has_topic(subject@) && *final(self) == *old(self),
            },
    {
        let ghost pre = self.batches@;
        match self.find(subject) {
            Some(i) => {
                proof {
                    lemma_subject_index_unique(pre, subject@, i as int);
                }
                let b = self.batches.swap_remove(i);
                proof {
                    lemma_swap_remove_effect(pre, self.batches@, i as int);
                }
                Some(FlushJob { subject: b.subject, route: b.route, rows: b.rows })
            },
            None => None,
        }
    }
}


/// What a drain of the whole accumulator guarantees: the accumulator is left
/// empty, and the jobs handed out are exactly the previously pending
/// batches, one non-empty job per topic, rows in arrival order.
pub open spec fn flush_all_post<H>(pre: Batcher<H>, post: Batcher<H>, jobs: Seq<FlushJob<H>>) -> bool {
    &&& post.wf()
    &&& post.same_config(pre)
    &&& post.batches@.len() == 0
    &&& jobs.len() == pre.batches@.len()
    &&& forall|j: int|
        0 <= j < jobs.len() ==> {
            &&& pre.has_topic((#[trigger] jobs[j]).subject@)
            &&& jobs[j].route == pre.route_of(jobs[j].subject@)
            &&& jobs[j].rows@ == pre.rows_of(jobs[j].subject@)
            &&& jobs[j].rows@.len() >= 1
        }
    &&& forall|t: Seq<char>| #[trigger]
        pre.has_topic(t) ==> exists|j: int| 0 <= j < jobs.len() && jobs[j].subject@ == t
    &&& forall|j1: int, j2: int|
        0 <= j1 < j2 < jobs.len() ==> jobs[j1].subject@ != jobs[j2].subject@
}

impl<H> Batcher<H> {
    /// Drains every pending batch, regardless of thresholds. The timer
    /// tick uses this to bound the latency of rows that never reach a
    /// threshold; shutdown and closure of the inbound channel use it so
    /// that every pending row receives a disposition before the process
    /// exits.
    pub fn flush_all(&mut self) -> (jobs: Vec<FlushJob<H>>)
        requires
            old(self).wf(),
        ensures
            flush_all_post(*old(self), *final(self), jobs@),
    {
        let ghost pre = self.batches@;
        let ghost n = pre.len() as int;
        let mut jobs: Vec<FlushJob<H>> = Vec::new();
        while self.batches.len() > 0
            invariant
                self.max_rows == old(self).max_rows,
                self.max_bytes == old(self).max_bytes,
                pre == old(self).batches@,
                n == pre.len() as int,
                self.batches@ == pre.subrange(0, self.batches@.len() as int),
                jobs@.len() + self.batches@.len() == n,
                forall|j: int|
                    0 <= j < jobs@.len() ==> {
                        &&& (#[trigger] jobs@[j]).subject == pre[n - 1 - j].subject
                        &&& jobs@[j].route == pre[n - 1 - j].route
                        &&& jobs@[j].rows == pre[n - 1 - j].rows
                    },
            decreases self.batches@.len(),
        {
            let ghost m = self.batches@.len() as int;
            let b = match self.batches.pop() {
                Some(b) => b,
                None => {
                    proof {
                        assert(false);
                    }
                    vstd::pervasive::unreached()
                },
            };
            proof {
                assert(b == pre[m - 1]);
                assert(self.batches@ =~= pre.subrange(0, m - 1));
            }
            jobs.push(FlushJob { subject: b.subject, route: b.route, rows: b.rows });
        }
        proof {
            let post = *self;
            let js = jobs@;
            assert(js.len() == n);
            assert forall|j: int| 0 <= j < n implies {
                &&& old(self).has_topic((#[trigger] js[j]).subject@)
                &&& js[j].route == old(self).route_of(js[j].subject@)
                &&& js[j].rows@ == old(self).rows_of(js[j].subject@)
                &&& js[j].rows@.len() >= 1
            } by {
                let idx = n - 1 - j;
                assert(pre[idx].wf());
                lemma_subject_index_unique(pre, pre[idx].subject@, idx);
            }
            assert forall|t: Seq<char>| #[trigger]
                old(self).has_topic(t) implies exists|j: int|
                0 <= j < js.len() && js[j].subject@ == t by {
                let idx = choose|idx: int| 0 <= idx < n && pre[idx].subject@ == t;
                assert(js[n - 1 - idx].subject@ == t);
            }
            assert forall|j1: int, j2: int| 0 <= j1 < j2 < js.len() implies js[j1].subject@
                != js[j2].subject@ by {
                assert(pre[n - 1 - j1].subject@ != pre[n - 1 - j2].subject@);
            }
        }
        jobs
    }
}


/// What a threshold sweep guarantees: every due topic is flushed into
/// exactly one job, every other topic keeps its batch untouched.
pub open spec fn flush_due_post<H>(pre: Batcher<H>, post: Batcher<H>, jobs: Seq<FlushJob<H>>) -> bool {
    &&& post.wf()
    &&& post.same_config(pre)
    &&& forall|t: Seq<char>| #[trigger] pre.is_due(t) ==> !post.has_topic(t)
    &&& forall|t: Seq<char>|
        #[trigger] pre.has_topic(t) && !pre.is_due(t) ==> post.has_topic(t) && batch_for(
            post.batches@,
            t,
        ) == batch_for(pre.batches@, t)
    &&& forall|t: Seq<char>| !pre.has_topic(t) ==> !(#[trigger] post.has_topic(t))
    &&& forall|j: int|
        0 <= j < jobs.len() ==> {
            &&& pre.is_due((#[trigger] jobs[j]).subject@)
            &&& jobs[j].route == pre.route_of(jobs[j].subject@)
            &&& jobs[j].rows@ == pre.rows_of(jobs[j].subject@)
            &&& jobs[j].rows@.len() >= 1
        }
    &&& forall|t: Seq<char>| #[trigger]
        pre.is_due(t) ==> exists|j: int| 0 <= j < jobs.len() && jobs[j].subject@ == t
    &&& forall|j1: int, j2: int|
        0 <= j1 < j2 < jobs.len() ==> jobs[j1].subject@ != jobs[j2].subject@
}

impl<H> Batcher<H> {
    /// The topics whose batches currently meet a flush threshold.
    fn collect_due(&self) -> (due: Vec<String>)
        requires
            self.wf(),
        ensures
            forall|k: int|
                0 <= k < due@.len() ==> self.is_due((#[trigger] due@[k])@),
            forall|t: Seq<char>| #[trigger]
                self.is_due(t) ==> exists|k: int| 0 <= k < due@.len() && due@[k]@ == t,
            forall|k1: int, k2: int| 0 <= k1 < k2 < due@.len() ==> due@[k1]@ != due@[k2]@,
    {
        let mut due: Vec<String> = Vec::new();
        let n = self.batches.len();
        let mut i: usize = 0;
        while i < n
            invariant
                self.wf(),
                n == self.batches@.len(),
                0 <= i <= n,
                forall|k: int|
                    0 <= k < due@.len() ==> self.is_due((#[trigger] due@[k])@),
                forall|k: int|
                    0 <= k < due@.len() ==> exists|idx: int|
                        0 <= idx < i && (#[trigger] due@[k])@ == self.batches@[idx].subject@,
                forall|idx: int|
                    0 <= idx < i && self.is_due((#[trigger] self.batches@[idx]).subject@)
                        ==> exists|k: int| 0 <= k < due@.len() && due@[k]@
                        == self.batches@[idx].subject@,
                forall|k1: int, k2: int| 0 <= k1 < k2 < due@.len() ==> due@[k1]@ != due@[k2]@,
            decreases n - i,
        {
            proof {
                lemma_subject_index_unique(self.batches@, self.batches@[i as int].subject@, i as int);
                assert(self.batches@[i as int].wf());
            }
            let due_now = self.batches[i].rows.len() >= self.max_rows || self.batches[i].bytes
                >= self.max_bytes;
            proof {
                assert(due_now == self.is_due(self.batches@[i as int].subject@));
            }
            let ghost pre_due = due@;
            if due_now {
                due.push(self.batches[i].subject.clone());
                proof {
                    assert(due@[due@.len() - 1]@ == self.batches@[i as int].subject@);
                    assert forall|k1: int, k2: int|
                        0 <= k1 < k2 < due@.len() implies due@[k1]@ != due@[k2]@ by {
                        if k2 == due@.len() - 1 {
                            let idx = choose|idx: int|
                                0 <= idx < i && pre_due[k1]@ == self.batches@[idx].subject@;
                            assert(self.batches@[idx].subject@ != self.batches@[i as int].subject@);
                        }
                    }
                }
            }
            proof {
                assert forall|idx: int|
                    0 <= idx < i + 1 && self.is_due(
                        (#[trigger] self.batches@[idx]).subject@,
                    ) implies exists|k: int|
                    0 <= k < due@.len() && due@[k]@ == self.batches@[idx].subject@ by {
                    if idx == i {
                        assert(due_now);
                        assert(due@[due@.len() - 1]@ == self.batches@[idx].subject@);
                    } else {
                        let k = choose|k: int|
                            0 <= k < pre_due.len() && pre_due[k]@ == self.batches@[idx].subject@;
                        assert(due@[k]@ == self.batches@[idx].subject@);
                    }
                }
            }
            i += 1;
        }
        proof {
            assert forall|t: Seq<char>| #[trigger]
                self.is_due(t) implies exists|k: int|
                0 <= k < due@.len() && due@[k]@ == t by {
                let idx = subject_index(self.batches@, t);
                assert(0 <= idx < n && self.batches@[idx].subject@ == t);
            }
        }
        due
    }

    /// Flushes every topic whose batch meets the row-count or byte-volume
    /// threshold and no other: the size/volume trigger, independent of the
    /// timer-driven drain.
    pub fn flush_due(&mut self) -> (jobs: Vec<FlushJob<H>>)
        requires
            old(self).wf(),
        ensures
            flush_due_post(*old(self), *final(self), jobs@),
    {
        let due = self.collect_due();
        let mut jobs: Vec<FlushJob<H>> = Vec::new();
        let nd = due.len();
        let mut k: usize = 0;
        while k < nd
            invariant
                nd == due@.len(),
                0 <= k <= nd,
                self.wf(),
                self.same_config(*old(self)),
                old(self).wf(),
                forall|x: int|
                    0 <= x < nd ==> old(self).is_due((#[trigger] due@[x])@),
                forall|t: Seq<char>| #[trigger]
                    old(self).is_due(t) ==> exists|x: int| 0 <= x < nd && due@[x]@ == t,
                forall|x1: int, x2: int| 0 <= x1 < x2 < nd ==> due@[x1]@ != due@[x2]@,
                forall|x: int| 0 <= x < k ==> !self.has_topic((#[trigger] due@[x])@),
                forall|t: Seq<char>|
                    #[trigger] old(self).has_topic(t) && !(exists|x: int|
                        0 <= x < k && due@[x]@ == t) ==> self.has_topic(t) && batch_for(
                        self.batches@,
                        t,
                    ) == batch_for(old(self).batches@, t),
                forall|t: Seq<char>| !old(self).has_topic(t) ==> !(#[trigger] self.has_topic(t)),
                jobs@.len() == k,
                forall|j: int|
                    0 <= j < k ==> {
                        &&& (#[trigger] jobs@[j]).subject@ == due@[j]@
                        &&& jobs@[j].route == old(self).route_of(due@[j]@)
                        &&& jobs@[j].rows@ == old(self).rows_of(due@[j]@)
                        &&& jobs@[j].rows@.len() >= 1
                    },
            decreases nd - k,
        {
            let ghost mid = *self;
            let ghost t0 = due@[k as int]@;
            proof {
                assert(old(self).is_due(t0));
                assert(old(self).has_topic(t0));
                assert(!(exists|x: int| 0 <= x < k && due@[x]@ == t0));
                assert(mid.has_topic(t0) && batch_for(mid.batches@, t0) == batch_for(
                    old(self).batches@,
                    t0,
                ));
            }
            let r = self.flush_subject(due[k].as_str());
            match r {
                Some(job) => {
                    jobs.push(job);
                },
                None => {
                    proof {
                        assert(false);
                    }
                },
            }
            proof {
                assert forall|x: int| 0 <= x < k + 1 implies !self.has_topic(
                    (#[trigger] due@[x])@,
                ) by {
                    if x < k {
                        assert(due@[x]@ != t0);
                        assert(!mid.has_topic(due@[x]@));
                    }
                }
                assert forall|t: Seq<char>|
                    #[trigger] old(self).has_topic(t) && !(exists|x: int|
                        0 <= x < k + 1 && due@[x]@ == t) implies self.has_topic(t) && batch_for(
                    self.batches@,
                    t,
                ) == batch_for(old(self).batches@, t) by {
                    assert(t != t0);
                    assert(!(exists|x: int| 0 <= x < k && due@[x]@ == t));
                    assert(mid.has_topic(t) && batch_for(mid.batches@, t) == batch_for(
                        old(self).batches@,
                        t,
                    ));
                }
                assert forall|t: Seq<char>| !old(self).has_topic(t) implies !(
                #[trigger] self.has_topic(t)) by {
                    assert(!mid.has_topic(t));
                    if t != t0 {
                        assert(self.has_topic(t) <==> mid.has_topic(t));
                    }
                }
            }
            k += 1;
        }
        proof {
            assert forall|t: Seq<char>| #[trigger]
                old(self).is_due(t) implies !self.has_topic(t) by {
                let x = choose|x: int| 0 <= x < nd && due@[x]@ == t;
                assert(!self.has_topic(due@[x]@));
            }
            assert forall|t: Seq<char>|
                #[trigger] old(self).has_topic(t) && !old(self).is_due(t) implies self.has_topic(t)
                && batch_for(self.batches@, t) == batch_for(old(self).batches@, t) by {
                if exists|x: int| 0 <= x < nd && due@[x]@ == t {
                    let x = choose|x: int| 0 <= x < nd && due@[x]@ == t;
                    assert(old(self).is_due(due@[x]@));
                }
            }
            assert forall|j: int| 0 <= j < jobs@.len() implies {
                &&& old(self).is_due((#[trigger] jobs@[j]).subject@)
                &&& jobs@[j].route == old(self).route_of(jobs@[j].subject@)
                &&& jobs@[j].rows@ == old(self).rows_of(jobs@[j].subject@)
                &&& jobs@[j].rows@.len() >= 1
            } by {
                assert(jobs@[j].subject@ == due@[j]@);
            }
            assert forall|t: Seq<char>| #[trigger] old(self).is_due(t) implies exists|j: int|
                0 <= j < jobs@.len() && jobs@[j].subject@ == t by {
                let x = choose|x: int| 0 <= x < nd && due@[x]@ == t;
                assert(jobs@[x].subject@ == t);
            }
            assert forall|j1: int, j2: int| 0 <= j1 < j2 < jobs@.len() implies jobs@[j1].subject@
                != jobs@[j2].subject@ by {
                assert(jobs@[j1].subject@ == due@[j1]@);
                assert(jobs@[j2].subject@ == due@[j2]@);
            }
        }
        jobs
    }
}


/// What handling one inbound event guarantees: the event is appended to its
/// topic's batch (created if absent), and that one topic is flushed
/// immediately if and only if the updated batch meets a threshold. No other
/// topic is touched.
pub open spec fn inbound_post<H>(
    pre: Batcher<H>,
    post: Batcher<H>,
    subject: Seq<char>,
    route: Route,
    entry: BatchEntry<H>,
    r: Option<FlushJob<H>>,
) -> bool {
    let rows = if pre.has_topic(subject) {
        pre.rows_of(subject).push(entry)
    } else {
        seq![entry]
    };
    let rt = if pre.has_topic(subject) {
        pre.route_of(subject)
    } else {
        route
    };
    &&& post.wf()
    &&& post.same_config(pre)
    &&& post.same_except(pre, subject)
    &&& match r {
        Some(job) => {
            &&& pre.due_rows(rows)
            &&& job.subject@ == subject
            &&& job.route == rt
            &&& job.rows@ == rows
            &&& !post.has_topic(subject)
        },
        None => {
            &&& !pre.due_rows(rows)
            &&& post.has_topic(subject)
            &&& post.route_of(subject) == rt
            &&& post.rows_of(subject) == rows
        },
    }
}

impl<H> Batcher<H> {
    /// Handles one event arriving from the worker pool: appends it, then
    /// eagerly flushes that topic if the updated batch now meets the
    /// row-count or byte-volume threshold, so worst-case latency for a
    /// high-volume topic does not depend on the timer period.
    pub fn on_inbound(&mut self, subject: String, route: Route, payload: Vec<u8>, handle: H) -> (r:
        Option<FlushJob<H>>)
        requires
            old(self).wf(),
            old(self).has_topic(subject@) ==> old(self).bytes_of(subject@) + payload@.len()
                <= usize::MAX,
        ensures
            inbound_post(
                *old(self),
                *final(self),
                subject@,
                route,
                (BatchEntry { payload, handle }),
                r,
            ),
    {
        let subject_key = subject.clone();
        self.add(subject, route, payload, handle);
        let ghost mid = *self;
        match self.find(subject_key.as_str()) {
            Some(i) => {
                proof {
                    lemma_subject_index_unique(self.batches@, subject_key@, i as int);
                    assert(self.batches@[i as int].wf());
                }
                if self.batches[i].rows.len() >= self.max_rows || self.batches[i].bytes
                    >= self.max_bytes {
                    let r = self.flush_subject(subject_key.as_str());
                    proof {
                        assert(r is Some);
                        assert forall|u: Seq<char>| u != subject_key@ implies {
                            &&& (#[trigger] self.has_topic(u) <==> old(self).has_topic(u))
                            &&& (old(self).has_topic(u) ==> batch_for(self.batches@, u)
                                == batch_for(old(self).batches@, u))
                        } by {
                            assert(self.has_topic(u) <==> mid.has_topic(u));
                            assert(mid.has_topic(u) <==> old(self).has_topic(u));
                        }
                    }
                    r
                } else {
                    proof {
                        assert(!old(self).due_rows(mid.rows_of(subject_key@)));
                    }
                    None
                }
            },
            None => {
                proof {
                    assert(false);
                }
                vstd::pervasive::unreached()
            },
        }
    }
}

/// The disposition issued to every row of a failed batch, given the
/// failure's detail text: terminal-reject when the failure is permanent,
/// negative-acknowledge (redeliver) otherwise.
pub open spec fn disposition_for_failure(detail: Seq<char>) -> Disposition {
    if spec_is_permanent(detail) {
        Disposition::Term
    } else {
        Disposition::Nak
    }
}

/// The disposition issued to every row of a flushed batch, given the sink's
/// outcome for that batch.
pub open spec fn disposition_for(outcome: SinkResult) -> Disposition {
    match outcome {
        SinkResult::Success => Disposition::Ack,
        SinkResult::Failure { detail } => disposition_for_failure(detail@),
    }
}

/// Resolves a flushed batch against the sink's outcome: every row's handle
/// receives exactly one disposition, the same for the whole batch, in the
/// rows' arrival order. Consuming the job by move is what makes a second
/// disposition for the same handle impossible.
pub fn resolve_flush<H>(job: FlushJob<H>, outcome: &SinkResult) -> (rs: Vec<Resolution<H>>)
    ensures
        rs@.len() == job.rows@.len(),
        forall|i: int|
            0 <= i < rs@.len() ==> (#[trigger] rs@[i]).handle == job.rows@[i].handle
                && rs@[i].disposition == disposition_for(*outcome),
{
    let d = match outcome {
        SinkResult::Success => Disposition::Ack,
        SinkResult::Failure { detail } => if is_permanent_ch_error(detail.as_str()) {
            Disposition::Term
        } else {
            Disposition::Nak
        },
    };
    let mut rows = job.rows;
    let ghost grows = rows@;
    let mut rs: Vec<Resolution<H>> = Vec::new();
    while rows.len() > 0
        invariant
            d == disposition_for(*outcome),
            rs@.len() + rows@.len() == grows.len(),
            rows@ == grows.skip(rs@.len() as int),
            forall|i: int|
                0 <= i < rs@.len() ==> (#[trigger] rs@[i]).handle == grows[i].handle
                    && rs@[i].disposition == d,
        decreases rows@.len(),
    {
        let ghost k = rs@.len() as int;
        let e = rows.remove(0);
        proof {
            assert(e == grows[k]);
            assert(rows@ =~= grows.skip(k + 1));
        }
        rs.push(Resolution { handle: e.handle, disposition: d });
    }
    rs
}

/// One occurrence in the control loop that drives the accumulator.
pub enum BatcherEvent<H> {
    /// The cooperative shutdown signal fired.
    Shutdown,
    /// The periodic flush timer ticked.
    Tick,
    /// The worker pool forwarded one routed event.
    Inbound { subject: String, route: Route, payload: Vec<u8>, handle: H },
    /// The inbound channel closed: all producers are done.
    InputClosed,
}

impl<H> Batcher<H> {
    /// One iteration of the control loop: dispatches an event to the
    /// matching operation and says whether the loop must terminate. The
    /// caller must poll sources in priority order shutdown, timer, inbound,
    /// and perform one sink call followed by [`resolve_flush`] for each
    /// returned job. A timer tick drains every pending batch, so no
    /// accepted row waits longer than one flush interval even when the
    /// size and byte thresholds are never reached; those thresholds are
    /// enforced eagerly as events arrive. Shutdown and channel closure
    /// drain everything and stop the loop.
    pub fn step(&mut self, event: BatcherEvent<H>) -> (r: (Vec<FlushJob<H>>, bool))
        requires
            old(self).wf(),
            match event {
                BatcherEvent::Inbound { subject, payload, .. } => old(self).has_topic(subject@)
                    ==> old(self).bytes_of(subject@) + payload@.len() <= usize::MAX,
                _ => true,
            },
        ensures
            match event {
                BatcherEvent::Shutdown => flush_all_post(*old(self), *final(self), r.0@) && r.1,
                BatcherEvent::InputClosed => flush_all_post(*old(self), *final(self), r.0@) && r.1,
                BatcherEvent::Tick => flush_all_post(*old(self), *final(self), r.0@) && !r.1,
                BatcherEvent::Inbound { subject, route, payload, handle } => {
                    &&& r.0@.len() <= 1
                    &&& inbound_post(
                        *old(self),
                        *final(self),
                        subject@,
                        route,
                        (BatchEntry { payload, handle }),
                        if r.0@.len() == 0 {
                            None
                        } else {
                            Some(r.0@[0])
                        },
                    )
                    &&& !r.1
                },
            },
    {
        match event {
            BatcherEvent::Shutdown => {
                let jobs = self.flush_all();
                (jobs, true)
            },
            BatcherEvent::InputClosed => {
                let jobs = self.flush_all();
                (jobs, true)
            },
            BatcherEvent::Tick => {
                let jobs = self.flush_all();
                (jobs, false)
            },
            BatcherEvent::Inbound { subject, route, payload, handle } => {
                let mut jobs: Vec<FlushJob<H>> = Vec::new();
                match self.on_inbound(subject, route, payload, handle) {
                    Some(job) => {
                        jobs.push(job);
                    },
                    None => {},
                }
                (jobs, false)
            },
        }
    }
}


/// Classification is deterministic in the failure detail alone: a detail
/// that carries one of the client-error markers yields terminal-reject for
/// the whole batch, any other detail yields negative-acknowledge. Together
/// with [`resolve_flush`]'s contract, every row of a failed batch receives
/// that one disposition.
pub proof fn lemma_classification_determinism(detail: Seq<char>)
    ensures
        crate::classify::spec_is_permanent(detail) <==> (crate::classify::has_substring(
            detail,
            "400"@,
        ) || crate::classify::has_substring(detail, "404"@) || crate::classify::has_substring(
            detail,
            "422"@,
        ) || crate::classify::has_substring(detail, "444"@) || crate::classify::has_substring(
            detail,
            "cannot parse"@,
        )),
        crate::classify::spec_is_permanent(detail) ==> disposition_for_failure(detail)
            == Disposition::Term,
        !crate::classify::spec_is_permanent(detail) ==> disposition_for_failure(detail)
            == Disposition::Nak,
{
}

/// Row-count trigger: when a topic already holds one row fewer than the
/// row threshold, handling one more inbound event for it flushes exactly
/// the accumulated rows, the new event included and nothing else.
pub proof fn lemma_flush_on_row_threshold<H>(
    pre: Batcher<H>,
    post: Batcher<H>,
    subject: Seq<char>,
    route: Route,
    entry: BatchEntry<H>,
    r: Option<FlushJob<H>>,
)
    requires
        pre.wf(),
        inbound_post(pre, post, subject, route, entry, r),
        pre.has_topic(subject),
        pre.rows_of(subject).len() == pre.max_rows - 1,
    ensures
        r matches Some(job) && job.rows@ == pre.rows_of(subject).push(entry) && job.rows@.len()
            == pre.max_rows && !post.has_topic(subject),
{
    let rows = pre.rows_of(subject).push(entry);
    assert(rows.len() >= pre.max_rows);
    assert(pre.due_rows(rows));
}

/// Byte-volume trigger: when appending one inbound event brings a topic's
/// accumulated payload bytes to or over the byte threshold, that topic is
/// flushed at once, whatever its row count.
pub proof fn lemma_flush_on_byte_threshold<H>(
    pre: Batcher<H>,
    post: Batcher<H>,
    subject: Seq<char>,
    route: Route,
    entry: BatchEntry<H>,
    r: Option<FlushJob<H>>,
)
    requires
        pre.wf(),
        inbound_post(pre, post, subject, route, entry, r),
        pre.has_topic(subject),
        sum_payload_bytes(pre.rows_of(subject).push(entry)) >= pre.max_bytes,
    ensures
        r matches Some(job) && job.rows@ == pre.rows_of(subject).push(entry) && !post.has_topic(
            subject,
        ),
{
    let rows = pre.rows_of(subject).push(entry);
    assert(pre.due_rows(rows));
}

/// Independent batching, append side: handling an inbound event for one
/// topic leaves every other topic's pending rows untouched, even when the
/// two topics route to the same table.
pub proof fn lemma_append_leaves_others<H>(
    pre: Batcher<H>,
    post: Batcher<H>,
    subject: Seq<char>,
    route: Route,
    entry: BatchEntry<H>,
    r: Option<FlushJob<H>>,
    other: Seq<char>,
)
    requires
        pre.wf(),
        inbound_post(pre, post, subject, route, entry, r),
        other != subject,
        pre.has_topic(other),
    ensures
        post.has_topic(other),
        post.rows_of(other) == pre.rows_of(other),
        post.route_of(other) == pre.route_of(other),
{
    assert(post.has_topic(other) <==> pre.has_topic(other));
    assert(batch_for(post.batches@, other) == batch_for(pre.batches@, other));
}

/// Independent batching, flush side: an operation that touches only one
/// topic (it satisfies `same_except`) leaves every other topic's pending
/// rows untouched.
pub proof fn lemma_flush_leaves_others<H>(
    pre: Batcher<H>,
    post: Batcher<H>,
    subject: Seq<char>,
    other: Seq<char>,
)
    requires
        post.same_except(pre, subject),
        other != subject,
        pre.has_topic(other),
    ensures
        post.has_topic(other),
        post.rows_of(other) == pre.rows_of(other),
        post.route_of(other) == pre.route_of(other),
{
    assert(post.has_topic(other) <==> pre.has_topic(other));
    assert(batch_for(post.batches@, other) == batch_for(pre.batches@, other));
}


/// Drain guarantee, shared by the timer tick and the shutdown path: a
/// drain leaves the accumulator empty, and each previously pending topic
/// appears in exactly one job, carrying exactly the rows that were pending
/// for it. So one event appended under unreachably high thresholds is
/// flushed by the next timer tick, and on shutdown every pending row is
/// handed to the sink exactly once before exit.
pub proof fn lemma_drain_flushes_every_topic<H>(
    pre: Batcher<H>,
    post: Batcher<H>,
    jobs: Seq<FlushJob<H>>,
    t: Seq<char>,
)
    requires
        pre.wf(),
        flush_all_post(pre, post, jobs),
        pre.has_topic(t),
    ensures
        post.batches@.len() == 0,
        exists|j: int|
            0 <= j < jobs.len() && (#[trigger] jobs[j]).subject@ == t && jobs[j].rows@
                == pre.rows_of(t) && jobs[j].rows@.len() >= 1,
        forall|j1: int, j2: int|
            0 <= j1 < jobs.len() && 0 <= j2 < jobs.len() && (#[trigger] jobs[j1]).subject@ == t
                && (#[trigger] jobs[j2]).subject@ == t ==> j1 == j2,
{
    let j = choose|j: int| 0 <= j < jobs.len() && jobs[j].subject@ == t;
    assert(jobs[j].rows@ == pre.rows_of(jobs[j].subject@));
    assert(jobs[j].subject@ == t && jobs[j].rows@ == pre.rows_of(t) && jobs[j].rows@.len() >= 1);
}

} // verus!
