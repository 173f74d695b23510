//! The generator: its identity, and the clock-and-sequence state machine that
//! decides for each request whether to advance the sequence, reset it or wait
//! for the next millisecond.
use vstd::prelude::*;

use crate::clock::clock_millis;
use crate::layout::{
    compose, lemma_pack_order, lemma_round_trip, pack, unpack, IdParts, MAX_DATACENTER_ID,
    MAX_SEQUENCE, MAX_TIMESTAMP, MAX_WORKER_ID,
};

verus! {

/// How many times a generator reads the clock while it waits for the next
/// millisecond before it gives up; a working clock ticks long before.
pub const MAX_CLOCK_POLLS: u64 = u64::MAX;

/// Why a generator was not made, or why it issued no identifier.
#[derive(Debug, Clone, Copy, PartialEq, Eq, Structural)]
pub enum IdError {
    /// A worker or datacenter id outside its range.
    InvalidIdentity,
    /// The clock reads earlier than the timestamp of the last identifier.
    ClockRegression,
    /// The clock reads later than the timestamp field can hold.
    TimestampOverflow,
    /// The clock did not pass the last timestamp while the generator waited.
    ClockStalled,
}

/// What a generator does with one clock reading.
#[derive(Debug, Clone, Copy, PartialEq, Eq, Structural)]
pub enum Step {
    /// An identifier was issued.
    Issued(i64),
    /// Every sequence number of the current millisecond is taken: a reading
    /// past it is needed.
    SequenceExhausted,
    /// The reading is earlier than the last timestamp.
    ClockRegression,
    /// The reading does not fit the timestamp field.
    TimestampOverflow,
}

/// The state of a generator as plain numbers.
pub struct WorkerView {
    pub worker_id: u64,
    pub datacenter_id: u64,
    pub sequence: u64,
    pub last_timestamp: u64,
}

impl WorkerView {
    pub open spec fn wf(self) -> bool {
        &&& self.worker_id <= MAX_WORKER_ID
        &&& self.datacenter_id <= MAX_DATACENTER_ID
        &&& self.sequence <= MAX_SEQUENCE
        &&& self.last_timestamp <= MAX_TIMESTAMP
    }

    /// The identifier of the state: the one issued last, once one has been.
    pub open spec fn last_id(self) -> u64 {
        pack(self.last_timestamp, self.datacenter_id, self.worker_id, self.sequence)
    }

    /// The state after a reading `now` that issues an identifier: a later
    /// millisecond resets the sequence, the same one increments it.
    pub open spec fn after(self, now: u64) -> WorkerView {
        if now > self.last_timestamp {
            WorkerView { sequence: 0, last_timestamp: now, ..self }
        } else {
            WorkerView { sequence: (self.sequence + 1) as u64, ..self }
        }
    }

    /// `post` follows `self` by issuing one identifier.
    pub open spec fn advances_to(self, post: WorkerView) -> bool {
        &&& post.worker_id == self.worker_id
        &&& post.datacenter_id == self.datacenter_id
        &&& post.wf()
        &&& ((post.last_timestamp > self.last_timestamp && post.sequence == 0) || (
        post.last_timestamp == self.last_timestamp && post.sequence == self.sequence + 1))
    }
}

/// Who generates identifiers: its identity, and the timestamp and sequence
/// number of the last identifier it issued.
#[derive(Debug)]
pub struct SnowFlakeWorker {
    worker_id: u64,
    datacenter_id: u64,
    sequence: u64,
    last_timestamp: u64,
}

impl View for SnowFlakeWorker {
    type V = WorkerView;

    closed spec fn view(&self) -> WorkerView {
        WorkerView {
            worker_id: self.worker_id,
            datacenter_id: self.datacenter_id,
            sequence: self.sequence,
            last_timestamp: self.last_timestamp,
        }
    }
}

impl SnowFlakeWorker {
    pub open spec fn wf(&self) -> bool {
        self@.wf()
    }

    /// A generator with the given identity that has issued nothing yet: its
    /// sequence is 0 and its last timestamp the epoch.
    pub fn new(worker_id: i64, datacenter_id: i64) -> (r: Result<SnowFlakeWorker, IdError>)
        ensures
            (0 <= worker_id <= MAX_WORKER_ID && 0 <= datacenter_id <= MAX_DATACENTER_ID) <==> r is Ok,
            r is Err ==> r == Err::<SnowFlakeWorker, IdError>(IdError::InvalidIdentity),
            r matches Ok(w) ==> w.wf() && w@ == (WorkerView {
                worker_id: worker_id as u64,
                datacenter_id: datacenter_id as u64,
                sequence: 0,
                last_timestamp: 0,
            }),
    {
        if worker_id < 0 || worker_id > MAX_WORKER_ID as i64 || datacenter_id < 0 || datacenter_id
            > MAX_DATACENTER_ID as i64 {
            return Err(IdError::InvalidIdentity);
        }
        Ok(SnowFlakeWorker {
            worker_id: worker_id as u64,
            datacenter_id: datacenter_id as u64,
            sequence: 0,
            last_timestamp: 0,
        })
    }

    /// Decides what the clock reading `now` (milliseconds since the epoch)
    /// gives, and issues an identifier when it can.
    pub fn next_id_at(&mut self, now: u64) -> (r: Step)
        requires
            old(self).wf(),
        ensures
            final(self).wf(),
            now < old(self)@.last_timestamp ==> r == Step::ClockRegression,
            now > MAX_TIMESTAMP ==> r == Step::TimestampOverflow,
            now == old(self)@.last_timestamp && old(self)@.sequence == MAX_SEQUENCE ==> r
                == Step::SequenceExhausted,
            (old(self)@.last_timestamp < now <= MAX_TIMESTAMP || (now == old(self)@.last_timestamp
                && old(self)@.sequence < MAX_SEQUENCE)) ==> r == Step::Issued(
                old(self)@.after(now).last_id() as i64,
            ),
            r is Issued ==> final(self)@ == old(self)@.after(now) && old(self)@.advances_to(
                final(self)@,
            ) && r->Issued_0 >= 0 && r->Issued_0 as u64 == final(self)@.last_id(),
            !(r is Issued) ==> final(self)@ == old(self)@,
    {
        if now < self.last_timestamp {
            return Step::ClockRegression;
        }
        if now > MAX_TIMESTAMP {
            return Step::TimestampOverflow;
        }
        if now == self.last_timestamp {
            if self.sequence == MAX_SEQUENCE {
                return Step::SequenceExhausted;
            }
            self.sequence = self.sequence + 1;
        } else {
            self.sequence = 0;
            self.last_timestamp = now;
        }
        let id = compose(
            IdParts {
                timestamp: self.last_timestamp,
                datacenter_id: self.datacenter_id,
                worker_id: self.worker_id,
                sequence: self.sequence,
            },
        );
        Step::Issued(id)
    }

    /// The decision on one clock reading while waiting for the next
    /// millisecond: the reading if it is past the last timestamp, else `None`.
    pub fn passes_last(&self, now: u64) -> (r: Option<u64>)
        ensures
            r == (if now > self@.last_timestamp {
                Some(now)
            } else {
                None::<u64>
            }),
    {
        if now > self.last_timestamp {
            Some(now)
        } else {
            None
        }
    }

    /// Reads the clock until a reading passes the last timestamp, and returns
    /// the first such reading; `None` if none has after `MAX_CLOCK_POLLS`
    /// readings.
    fn block_for_new_millis(&self) -> (r: Option<u64>)
        ensures
            r matches Some(t) ==> t > self@.last_timestamp,
    {
        let mut polls: u64 = 0;
        while polls < MAX_CLOCK_POLLS
            decreases MAX_CLOCK_POLLS - polls,
        {
            let now: u64 = clock_millis();
            let passed = self.passes_last(now);
            if passed.is_some() {
                return passed;
            }
            polls = polls + 1;
        }
        None
    }

    /// Issues an identifier from the clock reading `now`. Where the
    /// millisecond of `now` has no sequence number left, `later` is what the
    /// wait for the next millisecond gave: a reading past the last timestamp,
    /// or `None` if the wait gave up. `later` is not read otherwise.
    pub fn next_id_from(&mut self, now: u64, later: Option<u64>) -> (r: Result<i64, IdError>)
        requires
            old(self).wf(),
            later matches Some(t) ==> t > old(self)@.last_timestamp,
        ensures
            final(self).wf(),
            (r, final(self)@) == outcome(old(self)@, now, later),
            r matches Ok(id) ==> old(self)@.advances_to(final(self)@) && id >= 0 && id as u64
                == final(self)@.last_id() && id as u64 > old(self)@.last_id(),
    {
        let ghost pre = self@;
        let r = match self.next_id_at(now) {
            Step::Issued(id) => Ok(id),
            Step::ClockRegression => Err(IdError::ClockRegression),
            Step::TimestampOverflow => Err(IdError::TimestampOverflow),
            Step::SequenceExhausted => match later {
                None => Err(IdError::ClockStalled),
                Some(t) => match self.next_id_at(t) {
                    Step::Issued(id) => Ok(id),
                    _ => Err(IdError::TimestampOverflow),
                },
            },
        };
        proof {
            if r is Ok {
                lemma_issue_increases(pre, self@);
            }
        }
        r
    }

    /// Issues the next identifier from the wall clock. When the current
    /// millisecond has no sequence number left it waits for the next one.
    /// A clock that runs backward is an error and the state stays as it was.
    /// The result is `next_id_from` on the reading taken and on what the wait
    /// gave.
    pub fn next_id(&mut self) -> (r: Result<i64, IdError>)
        requires
            old(self).wf(),
        ensures
            final(self).wf(),
            exists|now: u64, later: Option<u64>|
                (later matches Some(t) ==> t > old(self)@.last_timestamp) && (r, final(self)@)
                    == #[trigger] outcome(old(self)@, now, later),
            r matches Ok(id) ==> old(self)@.advances_to(final(self)@) && id >= 0 && id as u64
                == final(self)@.last_id() && id as u64 > old(self)@.last_id(),
    {
        let now: u64 = clock_millis();
        let later = if now == self.last_timestamp && self.sequence == MAX_SEQUENCE {
            self.block_for_new_millis()
        } else {
            None
        };
        let ghost pre = self@;
        let r = self.next_id_from(now, later);
        assert((r, self@) == outcome(pre, now, later));
        r
    }
}

/// What issuing from the reading `now` gives, and the state after it; `later`
/// is what the wait for the next millisecond gave, read only where the
/// millisecond of `now` is exhausted.
pub open spec fn outcome(v: WorkerView, now: u64, later: Option<u64>) -> (Result<i64, IdError>, WorkerView) {
    if now < v.last_timestamp {
        (Err(IdError::ClockRegression), v)
    } else if now > MAX_TIMESTAMP {
        (Err(IdError::TimestampOverflow), v)
    } else if now == v.last_timestamp && v.sequence == MAX_SEQUENCE {
        match later {
            None => (Err(IdError::ClockStalled), v),
            Some(t) => if t > MAX_TIMESTAMP {
                (Err(IdError::TimestampOverflow), v)
            } else {
                (Ok(v.after(t).last_id() as i64), v.after(t))
            },
        }
    } else {
        (Ok(v.after(now).last_id() as i64), v.after(now))
    }
}

/// Each identifier a generator issues is greater than the one before it.
pub proof fn lemma_issue_increases(pre: WorkerView, post: WorkerView)
    requires
        pre.wf(),
        pre.advances_to(post),
    ensures
        pre.last_id() < post.last_id(),
{
    lemma_pack_order(
        pre.datacenter_id,
        pre.worker_id,
        pre.last_timestamp,
        pre.sequence,
        post.last_timestamp,
        post.sequence,
    );
}

/// The states of a generator over a run of serialized issues: each follows
/// the one before by issuing an identifier.
pub open spec fn is_run(states: Seq<WorkerView>) -> bool {
    &&& states.len() > 0
    &&& states[0].wf()
    &&& forall|i: int| 0 <= i < states.len() - 1 ==> #[trigger] states[i].advances_to(states[i + 1])
}

proof fn lemma_run_increases_from(states: Seq<WorkerView>, i: int, j: int)
    requires
        is_run(states),
        0 <= i < j < states.len(),
    ensures
        states[i].last_id() < states[j].last_id(),
        states[j].wf(),
    decreases j - i,
{
    if j == i + 1 {
        if i > 0 {
            lemma_run_wf(states, i);
        }
        assert(states[i].advances_to(states[i + 1]));
        lemma_issue_increases(states[i], states[j]);
    } else {
        lemma_run_increases_from(states, i, j - 1);
        assert(states[j - 1].advances_to(states[(j - 1) + 1]));
        lemma_issue_increases(states[j - 1], states[j]);
    }
}

proof fn lemma_run_wf(states: Seq<WorkerView>, i: int)
    requires
        is_run(states),
        0 <= i < states.len(),
    ensures
        states[i].wf(),
{
    if i > 0 {
        assert(states[i - 1].advances_to(states[(i - 1) + 1]));
    }
}

/// N serialized issues of one generator give N strictly increasing
/// identifiers: along a run, a later state has the greater last identifier.
pub proof fn lemma_run_strictly_increasing(states: Seq<WorkerView>)
    requires
        is_run(states),
    ensures
        forall|i: int, j: int|
            0 <= i < j < states.len() ==> #[trigger] states[i].last_id() < #[trigger] states[j].last_id(),
{
    assert forall|i: int, j: int| 0 <= i < j < states.len() implies #[trigger] states[i].last_id()
        < #[trigger] states[j].last_id() by {
        lemma_run_increases_from(states, i, j);
    }
}

/// Decoding an identifier that a generator issued gives back its worker and
/// datacenter ids, with the timestamp and sequence number of that issue.
pub proof fn lemma_decode_identity(v: WorkerView)
    requires
        v.wf(),
    ensures
        unpack(v.last_id()).worker_id == v.worker_id,
        unpack(v.last_id()).datacenter_id == v.datacenter_id,
        unpack(v.last_id()).timestamp == v.last_timestamp,
        unpack(v.last_id()).sequence == v.sequence,
{
    lemma_round_trip(
        IdParts {
            timestamp: v.last_timestamp,
            datacenter_id: v.datacenter_id,
            worker_id: v.worker_id,
            sequence: v.sequence,
        },
    );
}

proof fn lemma_run_same_millis(states: Seq<WorkerView>, k: int)
    requires
        is_run(states),
        0 <= k < states.len(),
        states[k].last_timestamp == states[0].last_timestamp,
    ensures
        states[k].sequence == states[0].sequence + k,
        forall|m: int| 0 <= m <= k ==> #[trigger] states[m].last_timestamp == states[0].last_timestamp,
    decreases k,
{
    if k > 0 {
        assert(states[k - 1].advances_to(states[(k - 1) + 1]));
        lemma_run_wf(states, k - 1);
        lemma_run_monotone(states, k - 1);
        lemma_run_same_millis(states, k - 1);
    }
}

proof fn lemma_run_monotone(states: Seq<WorkerView>, k: int)
    requires
        is_run(states),
        0 <= k < states.len(),
    ensures
        states[k].last_timestamp >= states[0].last_timestamp,
    decreases k,
{
    if k > 0 {
        assert(states[k - 1].advances_to(states[(k - 1) + 1]));
        lemma_run_monotone(states, k - 1);
    }
}

/// One millisecond holds at most `2^SEQUENCE_BITS` identifiers: after
/// `2^SEQUENCE_BITS` more issues a generator has moved past the timestamp it
/// started at, so some issue among them waited for the clock to advance.
pub proof fn lemma_sequence_exhaustion_waits(states: Seq<WorkerView>)
    requires
        is_run(states),
        states.len() == MAX_SEQUENCE + 2,
    ensures
        states[states.len() - 1].last_timestamp > states[0].last_timestamp,
        exists|k: int|
            0 <= k < states.len() - 1 && states[k].last_timestamp < #[trigger] states[k + 1].last_timestamp,
{
    let last: int = states.len() - 1;
    lemma_run_monotone(states, last);
    if states[last].last_timestamp == states[0].last_timestamp {
        lemma_run_same_millis(states, last);
        lemma_run_wf(states, last);
    }
    if forall|k: int|
        0 <= k < states.len() - 1 ==> states[k].last_timestamp >= #[trigger] states[k
            + 1].last_timestamp {
        lemma_run_flat(states, last);
    }
}

proof fn lemma_run_flat(states: Seq<WorkerView>, k: int)
    requires
        is_run(states),
        0 <= k < states.len(),
        forall|m: int|
            0 <= m < states.len() - 1 ==> states[m].last_timestamp >= #[trigger] states[m
                + 1].last_timestamp,
    ensures
        states[k].last_timestamp == states[0].last_timestamp,
    decreases k,
{
    if k > 0 {
        assert(states[k - 1].advances_to(states[(k - 1) + 1]));
        lemma_run_flat(states, k - 1);
    }
}

} // verus!
