//! The run over all targets: a counting admission gate that bounds how many
//! targets are probed at once, result slots kept in input order, and the
//! summary with its all-or-nothing success signal.

use vstd::prelude::*;
use crate::probe::{ProbeResult, Status};

verus! {

/// Why a run cannot start.
#[derive(PartialEq, Eq, Structural, Clone, Copy, Debug)]
pub enum RunError {
    /// The target list is empty.
    NoTargets,
    /// The concurrency limit is zero: no target could ever start.
    ZeroConcurrency,
}

/// How many results of `rs` are healthy.
pub open spec fn count_healthy(rs: Seq<ProbeResult>) -> nat
    decreases rs.len(),
{
    if rs.len() == 0 {
        0
    } else {
        count_healthy(rs.drop_last()) + if rs.last().status == Status::Healthy {
            1nat
        } else {
            0nat
        }
    }
}

proof fn lemma_count_healthy_bound(rs: Seq<ProbeResult>)
    ensures
        count_healthy(rs) <= rs.len(),
        count_healthy(rs) == rs.len() <==> forall|i: int|
            0 <= i < rs.len() ==> (#[trigger] rs[i]).status == Status::Healthy,
    decreases rs.len(),
{
    if rs.len() > 0 {
        let p = rs.drop_last();
        lemma_count_healthy_bound(p);
        if count_healthy(rs) == rs.len() {
            assert forall|i: int| 0 <= i < rs.len() implies (#[trigger] rs[i]).status
                == Status::Healthy by {
                if i < rs.len() - 1 {
                    assert(p[i] == rs[i]);
                }
            }
        }
        if forall|i: int| 0 <= i < rs.len() ==> (#[trigger] rs[i]).status == Status::Healthy {
            assert forall|i: int| 0 <= i < p.len() implies (#[trigger] p[i]).status
                == Status::Healthy by {
                assert(rs[i] == p[i]);
            }
        }
    }
}

/// The outcome of a whole run: every target's result in input order, and
/// how many of them are healthy.
pub struct Summary {
    pub results: Vec<ProbeResult>,
    pub healthy: usize,
    pub total: usize,
}

impl Summary {
    /// The counts agree with the results.
    pub open spec fn wf(&self) -> bool {
        &&& self.healthy == count_healthy(self.results@)
        &&& self.total == self.results.len()
    }

    /// The summary of a run whose results, in input order, are `results`.
    pub fn from_results(results: Vec<ProbeResult>) -> (r: Summary)
        ensures
            r.wf(),
            r.results@ == results@,
    {
        let mut healthy: usize = 0;
        let mut i: usize = 0;
        while i < results.len()
            invariant
                i <= results.len(),
                healthy == count_healthy(results@.take(i as int)),
                healthy <= i,
            decreases results.len() - i,
        {
            assert(results@.take(i + 1).drop_last() =~= results@.take(i as int));
            if results[i].status == Status::Healthy {
                healthy = healthy + 1;
            }
            i = i + 1;
        }
        assert(results@.take(i as int) =~= results@);
        let total = results.len();
        Summary { results, healthy, total }
    }

    /// Whether the run succeeded: every target ended healthy.
    pub fn all_healthy(&self) -> (r: bool)
        requires
            self.wf(),
        ensures
            r == forall|i: int|
                0 <= i < self.results.len() ==> (#[trigger] self.results@[i]).status
                    == Status::Healthy,
    {
        proof {
            lemma_count_healthy_bound(self.results@);
        }
        self.healthy == self.total
    }

    /// The process exit status the run calls for: 0 when every target ended
    /// healthy, 1 otherwise.
    pub fn exit_code(&self) -> (r: i32)
        requires
            self.wf(),
        ensures
            r == 0 <==> forall|i: int|
                0 <= i < self.results.len() ==> (#[trigger] self.results@[i]).status
                    == Status::Healthy,
            r == 0 || r == 1,
    {
        if self.all_healthy() {
            0
        } else {
            1
        }
    }
}

/// How many of the first `n` slots are still empty: targets started and not
/// yet completed, when `n` targets have started.
pub open spec fn pending(slots: Seq<Option<ProbeResult>>, n: int) -> nat
    decreases n,
{
    if n <= 0 {
        0
    } else {
        pending(slots, n - 1) + if slots[n - 1] is None {
            1nat
        } else {
            0nat
        }
    }
}

proof fn lemma_pending_fill(slots: Seq<Option<ProbeResult>>, n: int, k: int, x: ProbeResult)
    requires
        0 <= k < n <= slots.len(),
        slots[k] is None,
    ensures
        pending(slots.update(k, Some(x)), n) + 1 == pending(slots, n),
    decreases n,
{
    if n - 1 > k {
        lemma_pending_fill(slots, n - 1, k, x);
    } else {
        lemma_pending_frame(slots, slots.update(k, Some(x)), n - 1);
    }
}

proof fn lemma_pending_frame(a: Seq<Option<ProbeResult>>, b: Seq<Option<ProbeResult>>, n: int)
    requires
        0 <= n <= a.len(),
        n <= b.len(),
        forall|i: int| 0 <= i < n ==> (a[i] is None <==> b[i] is None),
    ensures
        pending(a, n) == pending(b, n),
    decreases n,
{
    if n > 0 {
        lemma_pending_frame(a, b, n - 1);
    }
}

proof fn lemma_pending_zero(slots: Seq<Option<ProbeResult>>, n: int)
    requires
        0 <= n <= slots.len(),
        pending(slots, n) == 0,
    ensures
        forall|i: int| 0 <= i < n ==> (#[trigger] slots[i]) is Some,
    decreases n,
{
    if n > 0 {
        lemma_pending_zero(slots, n - 1);
    }
}

proof fn lemma_pending_bound(slots: Seq<Option<ProbeResult>>, n: int)
    requires
        0 <= n,
    ensures
        pending(slots, n) <= n,
    decreases n,
{
    if n > 0 {
        lemma_pending_bound(slots, n - 1);
    }
}

/// The admission gate and result slots of one run. Targets start in input
/// order, at most `limit` at a time; each completed target's result goes
/// to the slot of its position in the input.
pub struct Scheduler {
    pub targets: Vec<String>,
    pub limit: usize,
    /// How many targets have started.
    pub started: usize,
    /// How many started targets have not completed.
    pub active: usize,
    pub slots: Vec<Option<ProbeResult>>,
}

impl Scheduler {
    /// One slot per target; `active` counts the started targets whose slot is
    /// still empty and stays within the limit; targets not yet started have
    /// empty slots; a filled slot holds a result that names its target.
    pub open spec fn wf(&self) -> bool {
        &&& self.limit >= 1
        &&& self.slots.len() == self.targets.len()
        &&& self.started <= self.targets.len()
        &&& self.active == pending(self.slots@, self.started as int)
        &&& self.active <= self.limit
        &&& forall|i: int| self.started <= i < self.slots.len() ==> (#[trigger] self.slots@[i]) is None
        &&& forall|i: int|
            0 <= i < self.slots.len() ==> (#[trigger] self.slots@[i] matches Some(r) ==> r.host@
                == self.targets@[i]@)
    }

    /// A run over `targets` with at most `limit` of them probed at once.
    /// Fails when there is no target, or when the limit is zero.
    pub fn new(targets: Vec<String>, limit: usize) -> (r: Result<Scheduler, RunError>)
        ensures
            targets.len() == 0 ==> r == Err::<Scheduler, RunError>(RunError::NoTargets),
            targets.len() > 0 && limit == 0 ==> r == Err::<Scheduler, RunError>(
                RunError::ZeroConcurrency,
            ),
            targets.len() > 0 && limit > 0 ==> (r matches Ok(s) && {
                &&& s.wf()
                &&& s.targets@ == targets@
                &&& s.limit == limit
                &&& s.started == 0
                &&& s.active == 0
            }),
    {
        if targets.len() == 0 {
            return Err(RunError::NoTargets);
        }
        if limit == 0 {
            return Err(RunError::ZeroConcurrency);
        }
        let mut slots: Vec<Option<ProbeResult>> = Vec::new();
        let mut i: usize = 0;
        while i < targets.len()
            invariant
                i <= targets.len(),
                slots.len() == i,
                forall|k: int| 0 <= k < i ==> (#[trigger] slots@[k]) is None,
            decreases targets.len() - i,
        {
            slots.push(None);
            i = i + 1;
        }
        Ok(Scheduler { targets, limit, started: 0, active: 0, slots })
    }

    /// Admits the next target when a slot of the limit is free: returns its
    /// index in the input, or `None` when the limit is reached or every
    /// target has started.
    pub fn start_next(&mut self) -> (r: Option<usize>)
        requires
            old(self).wf(),
        ensures
            final(self).wf(),
            final(self).targets@ == old(self).targets@,
            final(self).slots@ == old(self).slots@,
            final(self).limit == old(self).limit,
            old(self).active < old(self).limit && old(self).started < old(self).targets.len()
                ==> {
                &&& r == Some(old(self).started)
                &&& final(self).started == old(self).started + 1
                &&& final(self).active == old(self).active + 1
            },
            !(old(self).active < old(self).limit && old(self).started < old(self).targets.len())
                ==> {
                &&& r is None
                &&& final(self).started == old(self).started
                &&& final(self).active == old(self).active
            },
    {
        if self.active < self.limit && self.started < self.targets.len() {
            let i = self.started;
            assert(self.slots@[i as int] is None);
            self.started = i + 1;
            self.active = self.active + 1;
            Some(i)
        } else {
            None
        }
    }

    /// Takes in the result of the target at `index`. It is accepted only for a
    /// started target that has not completed, and only when it names that
    /// target; an accepted result frees one slot of the limit.
    pub fn complete(&mut self, index: usize, result: ProbeResult) -> (r: bool)
        requires
            old(self).wf(),
        ensures
            final(self).wf(),
            final(self).targets@ == old(self).targets@,
            final(self).limit == old(self).limit,
            final(self).started == old(self).started,
            r == (index < old(self).started && old(self).slots@[index as int] is None
                && result.host@ == old(self).targets@[index as int]@),
            r ==> final(self).slots@ == old(self).slots@.update(index as int, Some(result))
                && final(self).active + 1 == old(self).active,
            !r ==> final(self).slots@ == old(self).slots@ && final(self).active
                == old(self).active,
    {
        if index < self.started && self.slots[index].is_none() && result.host
            == self.targets[index] {
            proof {
                lemma_pending_fill(self.slots@, self.started as int, index as int, result);
            }
            self.slots.set(index, Some(result));
            self.active = self.active - 1;
            true
        } else {
            false
        }
    }

    /// Whether every target has started and completed.
    pub fn is_finished(&self) -> (r: bool)
        requires
            self.wf(),
        ensures
            r == (self.started == self.targets.len() && self.active == 0),
    {
        self.started == self.targets.len() && self.active == 0
    }

    /// The summary of a finished run: exactly one result per target, in
    /// input order, each naming its target.
    pub fn into_summary(self) -> (r: Summary)
        requires
            self.wf(),
            self.started == self.targets.len(),
            self.active == 0,
        ensures
            r.wf(),
            r.results.len() == self.targets.len(),
            forall|i: int|
                0 <= i < self.targets.len() ==> self.slots@[i] == Some(#[trigger] r.results@[i]),
            forall|i: int|
                0 <= i < self.targets.len() ==> (#[trigger] r.results@[i]).host@
                    == self.targets@[i]@,
    {
        proof {
            lemma_pending_zero(self.slots@, self.started as int);
        }
        let ghost orig = self.slots@;
        let n = self.slots.len();
        let mut slots = self.slots;
        // Empty the slots from the back, then turn the results around.
        let mut reversed: Vec<ProbeResult> = Vec::new();
        while slots.len() > 0
            invariant
                slots.len() + reversed.len() == n == orig.len(),
                slots@ == orig.take(slots.len() as int),
                forall|i: int| 0 <= i < n ==> (#[trigger] orig[i]) is Some,
                forall|i: int|
                    0 <= i < reversed.len() ==> orig[n - 1 - i] == Some(#[trigger] reversed@[i]),
            decreases slots.len(),
        {
            let ghost m = slots.len() as int;
            let x = slots.pop();
            assert(slots@ =~= orig.take(m - 1));
            match x {
                Some(Some(p)) => reversed.push(p),
                _ => {
                    assert(orig[m - 1] is Some);
                },
            }
        }
        let mut results: Vec<ProbeResult> = Vec::new();
        while reversed.len() > 0
            invariant
                results.len() + reversed.len() == n == orig.len(),
                forall|i: int|
                    0 <= i < reversed.len() ==> orig[n - 1 - i] == Some(#[trigger] reversed@[i]),
                forall|i: int| 0 <= i < results.len() ==> orig[i] == Some(#[trigger] results@[i]),
            decreases reversed.len(),
        {
            let ghost m = reversed.len() as int;
            let ghost before = reversed@;
            match reversed.pop() {
                Some(p) => {
                    assert(orig[n - 1 - (m - 1)] == Some(before[m - 1]));
                    results.push(p);
                },
                None => {},
            }
            assert forall|i: int| 0 <= i < reversed.len() implies orig[n - 1 - i] == Some(
                #[trigger] reversed@[i],
            ) by {
                assert(reversed@[i] == before[i]);
            }
        }
        Summary::from_results(results)
    }
}

/// At every state of a run, the targets that have started and not completed
/// number at most the concurrency limit.
pub proof fn lemma_in_flight_bounded(s: Scheduler)
    requires
        s.wf(),
    ensures
        pending(s.slots@, s.started as int) <= s.limit,
        pending(s.slots@, s.started as int) <= s.started,
{
    lemma_pending_bound(s.slots@, s.started as int);
}

} // verus!
