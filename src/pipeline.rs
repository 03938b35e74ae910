use crate::discord::InviteInfo;
use vstd::prelude::*;

verus! {

/// How a terminal failure of one invite affects the batch.
#[derive(Debug, Clone, Copy, PartialEq, Eq, Structural)]
pub enum FailurePolicy {
    /// The first terminal failure ends the batch: nothing more is started,
    /// what is in flight is abandoned, and only that failure is reported.
    FailFast,
    /// Every invite is fetched; failures are reported beside the records.
    FailSoft,
}

/// A terminal failure of one invite: its code and the last error message.
#[derive(Debug)]
pub struct FetchFailure {
    pub code: String,
    pub detail: String,
}

/// The final result of fetching one invite.
#[derive(Debug)]
pub enum FetchOutcome {
    Record(InviteInfo),
    Failure(FetchFailure),
}

/// What a batch produced: its records and its failures, each in the order of
/// the invites they belong to.
#[derive(Debug)]
pub struct BatchReport {
    pub records: Vec<InviteInfo>,
    pub failures: Vec<FetchFailure>,
}

/// The records among a sequence of resolved slots, in order.
pub open spec fn records_of(s: Seq<Option<FetchOutcome>>) -> Seq<InviteInfo>
    decreases s.len(),
{
    if s.len() == 0 {
        Seq::empty()
    } else {
        let rest = records_of(s.drop_last());
        match s.last() {
            Some(FetchOutcome::Record(x)) => rest.push(x),
            _ => rest,
        }
    }
}

/// The failures among a sequence of resolved slots, in order.
pub open spec fn failures_of(s: Seq<Option<FetchOutcome>>) -> Seq<FetchFailure>
    decreases s.len(),
{
    if s.len() == 0 {
        Seq::empty()
    } else {
        let rest = failures_of(s.drop_last());
        match s.last() {
            Some(FetchOutcome::Failure(f)) => rest.push(f),
            _ => rest,
        }
    }
}

/// Whether every slot holds an outcome.
pub open spec fn all_resolved(s: Seq<Option<FetchOutcome>>) -> bool {
    forall|i: int| 0 <= i < s.len() ==> (#[trigger] s[i]) is Some
}

/// Whether some slot holds a failure.
pub open spec fn has_failure(s: Seq<Option<FetchOutcome>>) -> bool {
    exists|i: int| 0 <= i < s.len() && (#[trigger] s[i]) matches Some(FetchOutcome::Failure(_))
}

/// The admission gate and collector of one batch of invites.
///
/// Invites are numbered from 0 in input order. `start_next` hands out the next
/// invite to fetch while fewer than `limit` are in flight; `complete` takes
/// back the outcome of one in flight. The batch is finished when every
/// invite has an outcome, or, under fail-fast, at the first failure.
pub struct Pipeline {
    limit: usize,
    policy: FailurePolicy,
    next: usize,
    in_flight: usize,
    active: Vec<bool>,
    outcomes: Vec<Option<FetchOutcome>>,
    aborted: Option<usize>,
    running: Ghost<Set<int>>,
}

impl Pipeline {
    /// The most invites in flight at once.
    pub closed spec fn limit(&self) -> nat {
        self.limit as nat
    }

    /// The aggregation policy.
    pub closed spec fn policy(&self) -> FailurePolicy {
        self.policy
    }

    /// The number of invites in the batch.
    pub open spec fn total(&self) -> nat {
        self.outcomes().len()
    }

    /// The number of invites admitted so far.
    pub closed spec fn admitted(&self) -> nat {
        self.next as nat
    }

    /// The invites in flight: admitted and not yet completed.
    pub closed spec fn running(&self) -> Set<int> {
        self.running@
    }

    /// The outcome received so far for each invite.
    pub closed spec fn outcomes(&self) -> Seq<Option<FetchOutcome>> {
        self.outcomes@
    }

    /// The invite whose failure ended the batch under fail-fast, if any.
    pub closed spec fn aborted(&self) -> Option<usize> {
        self.aborted
    }

    /// Whether the batch is over.
    pub open spec fn finished(&self) -> bool {
        self.aborted() is Some || (self.admitted() == self.total() && self.running().len() == 0)
    }

    pub closed spec fn wf(&self) -> bool {
        &&& self.limit >= 1
        &&& self.active@.len() == self.outcomes@.len()
        &&& self.next <= self.outcomes@.len()
        &&& self.running@.finite()
        &&& self.in_flight == self.running@.len()
        &&& self.in_flight <= self.limit
        &&& forall|i: int|
            #![trigger self.running@.contains(i)]
            self.running@.contains(i) <==> (0 <= i < self.active@.len() && self.active@[i])
        &&& forall|i: int|
            0 <= i < self.active@.len() && #[trigger] self.active@[i] ==> i < self.next
                && self.outcomes@[i] is None
        &&& forall|i: int|
            self.next <= i < self.outcomes@.len() ==> !self.active@[i] && (
            #[trigger] self.outcomes@[i]) is None
        &&& self.aborted is None ==> forall|i: int|
            0 <= i < self.next && !self.active@[i] ==> (#[trigger] self.outcomes@[i]) is Some
        &&& match self.aborted {
            Some(j) => self.policy == FailurePolicy::FailFast && j < self.outcomes@.len()
                && self.outcomes@[j as int] is Some && self.outcomes@[j as int].unwrap() is Failure,
            None => true,
        }
        &&& (self.policy == FailurePolicy::FailFast && self.aborted is None) ==> !has_failure(
            self.outcomes@,
        )
    }

    /// A batch of `total` invites, of which at most `limit` are fetched at
    /// once.
    pub fn new(total: usize, limit: usize, policy: FailurePolicy) -> (r: Pipeline)
        requires
            limit >= 1,
        ensures
            r.wf(),
            r.total() == total,
            r.outcomes().len() == total,
            r.limit() == limit,
            r.policy() == policy,
            r.admitted() == 0,
            r.running().is_empty(),
            r.aborted() is None,
            forall|i: int| 0 <= i < total ==> (#[trigger] r.outcomes()[i]) is None,
    {
        let mut active: Vec<bool> = Vec::new();
        let mut outcomes: Vec<Option<FetchOutcome>> = Vec::new();
        let mut i: usize = 0;
        while i < total
            invariant
                i <= total,
                active@.len() == i,
                outcomes@.len() == i,
                forall|j: int| 0 <= j < i ==> !(#[trigger] active@[j]),
                forall|j: int| 0 <= j < i ==> (#[trigger] outcomes@[j]) is None,
            decreases total - i,
        {
            active.push(false);
            outcomes.push(None);
            i = i + 1;
        }
        Pipeline {
            limit,
            policy,
            next: 0,
            in_flight: 0,
            active,
            outcomes,
            aborted: None,
            running: Ghost(Set::empty()),
        }
    }

    /// Whether invite `i` is in flight.
    pub fn is_running(&self, i: usize) -> (r: bool)
        requires
            self.wf(),
        ensures
            r == self.running().contains(i as int),
    {
        i < self.active.len() && self.active[i]
    }

    /// Whether the batch is over: every invite has an outcome, or a failure
    /// ended it under fail-fast.
    pub fn is_finished(&self) -> (r: bool)
        requires
            self.wf(),
        ensures
            r == self.finished(),
    {
        self.aborted.is_some() || (self.next == self.outcomes.len() && self.in_flight == 0)
    }

    /// Admits the next invite when one is waiting, the batch has not been
    /// ended by a failure, and fewer than `limit` are in flight; returns its
    /// number. Otherwise nothing changes.
    pub fn start_next(&mut self) -> (r: Option<usize>)
        requires
            old(self).wf(),
        ensures
            final(self).wf(),
            final(self).total() == old(self).total(),
            final(self).limit() == old(self).limit(),
            final(self).policy() == old(self).policy(),
            final(self).aborted() == old(self).aborted(),
            final(self).outcomes() == old(self).outcomes(),
            (old(self).aborted() is None && old(self).admitted() < old(self).total()
                && old(self).running().len() < old(self).limit()) ==> r == Some(
                old(self).admitted() as usize,
            ) && final(self).admitted() == old(self).admitted() + 1 && final(self).running()
                == old(self).running().insert(old(self).admitted() as int),
            !(old(self).aborted() is None && old(self).admitted() < old(self).total()
                && old(self).running().len() < old(self).limit()) ==> r is None
                && final(self).admitted() == old(self).admitted() && final(self).running()
                == old(self).running(),
    {
        if self.aborted.is_some() || self.next >= self.outcomes.len() || self.in_flight
            >= self.limit {
            return None;
        }
        let i = self.next;
        assert(!self.running@.contains(i as int));
        self.active[i] = true;
        self.next = self.next + 1;
        self.in_flight = self.in_flight + 1;
        self.running = Ghost(self.running@.insert(i as int));
        Some(i)
    }

    /// Records the outcome of invite `i`, which is in flight. Under
    /// fail-fast a failure ends the batch.
    pub fn complete(&mut self, i: usize, outcome: FetchOutcome)
        requires
            old(self).wf(),
            old(self).aborted() is None,
            old(self).running().contains(i as int),
        ensures
            final(self).wf(),
            final(self).total() == old(self).total(),
            final(self).limit() == old(self).limit(),
            final(self).policy() == old(self).policy(),
            final(self).admitted() == old(self).admitted(),
            final(self).running() == old(self).running().remove(i as int),
            final(self).outcomes() == old(self).outcomes().update(i as int, Some(outcome)),
            (old(self).policy() == FailurePolicy::FailFast && outcome is Failure) ==> final(self).aborted() == Some(i),
            !(old(self).policy() == FailurePolicy::FailFast && outcome is Failure) ==> final(self).aborted() is None,
    {
        let ghost before = self.outcomes@;
        let failed = match &outcome {
            FetchOutcome::Failure(_) => true,
            FetchOutcome::Record(_) => false,
        };
        self.active[i] = false;
        self.in_flight = self.in_flight - 1;
        self.outcomes[i] = Some(outcome);
        self.running = Ghost(self.running@.remove(i as int));
        if failed && self.policy == FailurePolicy::FailFast {
            self.aborted = Some(i);
        }
        assert(forall|j: int|
            0 <= j < self.outcomes@.len() && j != i ==> self.outcomes@[j] == before[j]);
        proof {
            if self.policy == FailurePolicy::FailFast && self.aborted is None {
                assert forall|j: int| 0 <= j < self.outcomes@.len() implies !(
                #[trigger] self.outcomes@[j] matches Some(FetchOutcome::Failure(_))) by {
                    if j != i {
                        assert(!(before[j] matches Some(FetchOutcome::Failure(_))));
                    }
                }
            }
        }
    }
}

impl Pipeline {
    /// The result of a finished batch. Under fail-fast, the failure that
    /// ended it, or every record when none failed. Under fail-soft, every
    /// record and every failure.
    pub fn finish(self) -> (r: Result<BatchReport, FetchFailure>)
        requires
            self.wf(),
            self.finished(),
        ensures
            match self.aborted() {
                Some(j) => j < self.total() && (r matches Err(f) && self.outcomes()[j as int]
                    == Some(FetchOutcome::Failure(f))),
                None => r matches Ok(rep) && all_resolved(self.outcomes()) && rep.records@
                    == records_of(self.outcomes()) && rep.failures@ == failures_of(
                    self.outcomes(),
                ) && rep.records@.len() + rep.failures@.len() == self.total(),
            },
            self.policy() == FailurePolicy::FailFast && self.aborted() is None ==> (r matches Ok(
                rep,
            ) && rep.failures@.len() == 0),
    {
        let ghost all = self.outcomes@;
        let mut outcomes = self.outcomes;
        match self.aborted {
            Some(j) => {
                let o = outcomes.remove(j);
                match o {
                    Some(FetchOutcome::Failure(f)) => Err(f),
                    _ => {
                        proof {
                            assert(false);
                        }
                        Err(FetchFailure { code: String::new(), detail: String::new() })
                    },
                }
            },
            None => {
                proof {
                    lemma_resolved_when_finished(&self);
                }
                let mut records: Vec<InviteInfo> = Vec::new();
                let mut failures: Vec<FetchFailure> = Vec::new();
                let ghost mut k: int = 0;
                while outcomes.len() > 0
                    invariant
                        0 <= k <= all.len(),
                        outcomes@ == all.subrange(k, all.len() as int),
                        records@ == records_of(all.subrange(0, k)),
                        failures@ == failures_of(all.subrange(0, k)),
                        all_resolved(all),
                    decreases outcomes@.len(),
                {
                    let o = outcomes.remove(0);
                    proof {
                        let t = all.subrange(0, k + 1);
                        assert(t.drop_last() == all.subrange(0, k));
                        assert(t.last() == all[k]);
                    }
                    match o {
                        Some(FetchOutcome::Record(x)) => records.push(x),
                        Some(FetchOutcome::Failure(f)) => failures.push(f),
                        None => {},
                    }
                    proof {
                        k = k + 1;
                    }
                }
                assert(all.subrange(0, k) == all);
                proof {
                    lemma_outcome_count(all);
                    if self.policy == FailurePolicy::FailFast {
                        lemma_no_failures(all);
                    }
                }
                Ok(BatchReport { records, failures })
            },
        }
    }
}

proof fn lemma_resolved_when_finished(p: &Pipeline)
    requires
        p.wf(),
        p.finished(),
        p.aborted() is None,
    ensures
        all_resolved(p.outcomes()),
{
    assert forall|i: int| 0 <= i < p.outcomes@.len() implies (#[trigger] p.outcomes@[i]) is Some by {
        if p.active@[i] {
            assert(p.running@.contains(i));
            assert(p.running@.len() > 0) by {
                vstd::set_lib::lemma_set_empty_equivalency_len(p.running@);
            }
        }
    }
}

proof fn lemma_no_failures(s: Seq<Option<FetchOutcome>>)
    requires
        !has_failure(s),
    ensures
        failures_of(s).len() == 0,
    decreases s.len(),
{
    if s.len() > 0 {
        let t = s.drop_last();
        assert forall|i: int| 0 <= i < t.len() implies !(#[trigger] t[i] matches Some(
            FetchOutcome::Failure(_),
        )) by {
            assert(t[i] == s[i]);
        }
        lemma_no_failures(t);
        assert(!(s[s.len() - 1] matches Some(FetchOutcome::Failure(_))));
    }
}

proof fn lemma_outcome_count(s: Seq<Option<FetchOutcome>>)
    requires
        all_resolved(s),
    ensures
        records_of(s).len() + failures_of(s).len() == s.len(),
    decreases s.len(),
{
    if s.len() > 0 {
        let t = s.drop_last();
        assert forall|i: int| 0 <= i < t.len() implies (#[trigger] t[i]) is Some by {
            assert(t[i] == s[i]);
        }
        lemma_outcome_count(t);
        assert(s[s.len() - 1] is Some);
    }
}

/// However many invites are in flight, they never exceed the limit the
/// batch was created with.
pub proof fn lemma_concurrency_bound(p: &Pipeline)
    requires
        p.wf(),
    ensures
        p.running().len() <= p.limit(),
        p.admitted() <= p.total(),
        p.running().finite(),
        forall|i: int| #[trigger] p.running().contains(i) ==> 0 <= i < p.admitted(),
{
}

/// A fail-soft batch is never ended by a failure, and once finished, like
/// any batch that no failure ended, it holds exactly one outcome per
/// invite: the records and the failures it reports number as many as the
/// invites, and none is lost or counted twice.
pub proof fn lemma_fail_soft_complete(p: &Pipeline)
    requires
        p.wf(),
        p.finished() || p.policy() == FailurePolicy::FailSoft,
    ensures
        p.policy() == FailurePolicy::FailSoft ==> p.aborted() is None,
        p.finished() && p.aborted() is None ==> all_resolved(p.outcomes()),
        p.finished() && p.aborted() is None ==> records_of(p.outcomes()).len() + failures_of(
            p.outcomes(),
        ).len() == p.total(),
{
    if p.finished() && p.aborted() is None {
        lemma_resolved_when_finished(p);
        lemma_outcome_count(p.outcomes());
    }
}

} // verus!
