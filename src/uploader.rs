use vstd::prelude::*;

verus! {

/// Where one resource stands in the batch.
#[derive(Debug, Clone, Copy, PartialEq, Eq)]
pub enum SlotState {
    /// Not dispatched yet.
    Pending,
    /// Dispatched and holding a worker; the count is the failed attempts so far.
    Running(usize),
    /// Uploaded.
    Succeeded,
    /// Every allowed attempt failed.
    Failed,
}

/// What the caller is to do next.
#[derive(Debug, Clone, Copy, PartialEq, Eq)]
pub enum Step {
    /// Start uploading the resource at this index.
    Start(usize),
    /// Wait for an upload in flight to report back.
    Wait,
    /// Every resource was uploaded.
    Finished,
    /// The resource at this index failed every attempt: the batch has failed.
    Aborted(usize),
}

/// How a reported attempt is taken.
#[derive(Debug, Clone, Copy, PartialEq, Eq)]
pub enum Attempt {
    /// The upload was accepted and the worker is free.
    Done,
    /// Wait the retry delay, then try the same resource again.
    Retry,
    /// No attempt is left: the resource, and the batch, failed.
    Exhausted,
}

/// How failed uploads are retried.
#[derive(Debug, Clone, Copy, PartialEq, Eq)]
pub struct Retry {
    /// Number of retries after a failed attempt before giving up.
    pub attempts: usize,
    /// Delay in milliseconds between attempts.
    pub millis: u64,
}

impl Default for Retry {
    /// Three retries, one second apart.
    fn default() -> (r: Retry)
        ensures
            r.attempts == 3,
            r.millis == 1000,
    {
        Retry { attempts: 3, millis: 1000 }
    }
}

/// How many uploads may run at once.
#[derive(Debug, Clone, Copy, PartialEq, Eq)]
pub struct Concurrent {
    /// Number of uploads in flight at most; 0 sets no limit.
    pub parallel: usize,
}

impl Default for Concurrent {
    /// Twenty uploads at once.
    fn default() -> (r: Concurrent)
        ensures
            r.parallel == 20,
    {
        Concurrent { parallel: 20 }
    }
}

/// The number of resources holding a worker.
pub open spec fn running_count(s: Seq<SlotState>) -> nat
    decreases s.len(),
{
    if s.len() == 0 {
        0
    } else {
        running_count(s.drop_last()) + if s.last() is Running {
            1nat
        } else {
            0nat
        }
    }
}

proof fn lemma_count_update(s: Seq<SlotState>, i: int, v: SlotState)
    requires
        0 <= i < s.len(),
    ensures
        running_count(s.update(i, v)) as int == running_count(s) as int - (if s[i] is Running {
            1int
        } else {
            0int
        }) + (if v is Running {
            1int
        } else {
            0int
        }),
    decreases s.len(),
{
    let t = s.update(i, v);
    if i == s.len() - 1 {
        assert(t.drop_last() =~= s.drop_last());
    } else {
        assert(t.drop_last() =~= s.drop_last().update(i, v));
        lemma_count_update(s.drop_last(), i, v);
    }
}

proof fn lemma_count_below_len(s: Seq<SlotState>, j: int)
    requires
        0 <= j < s.len(),
        !(s[j] is Running),
    ensures
        running_count(s) < s.len(),
    decreases s.len(),
{
    if j < s.len() - 1 {
        lemma_count_below_len(s.drop_last(), j);
    } else {
        lemma_count_at_most_len(s.drop_last());
    }
}

proof fn lemma_count_at_most_len(s: Seq<SlotState>)
    ensures
        running_count(s) <= s.len(),
    decreases s.len(),
{
    if s.len() > 0 {
        lemma_count_at_most_len(s.drop_last());
    }
}

proof fn lemma_count_zero(s: Seq<SlotState>)
    requires
        running_count(s) == 0,
    ensures
        forall|j: int| 0 <= j < s.len() ==> !(#[trigger] s[j] is Running),
    decreases s.len(),
{
    if s.len() > 0 {
        lemma_count_zero(s.drop_last());
        assert forall|j: int| 0 <= j < s.len() implies !(#[trigger] s[j] is Running) by {
            if j < s.len() - 1 {
                assert(s.drop_last()[j] == s[j]);
            }
        }
    }
}

/// The dispatch decisions of a batch upload: at most `parallel` uploads hold a
/// worker at once (no limit when it is 0), each resource is tried at most
/// `retries + 1` times, and the first resource that runs out of attempts stops
/// any further dispatch.
pub struct Uploader {
    parallel: usize,
    retries: usize,
    slots: Vec<SlotState>,
    next: usize,
    in_flight: usize,
    failure: Option<usize>,
}

impl Uploader {
    pub closed spec fn spec_parallel(&self) -> nat {
        self.parallel as nat
    }

    pub closed spec fn spec_retries(&self) -> nat {
        self.retries as nat
    }

    /// The state of every resource, by index.
    pub closed spec fn spec_slots(&self) -> Seq<SlotState> {
        self.slots@
    }

    /// The first resource that ran out of attempts, if any.
    pub closed spec fn spec_failure(&self) -> Option<usize> {
        self.failure
    }

    pub closed spec fn wf(&self) -> bool {
        &&& self.next <= self.slots@.len()
        &&& forall|j: int|
            0 <= j < self.slots@.len() ==> ((#[trigger] self.slots@[j] is Pending) <==> j
                >= self.next)
        &&& self.in_flight == running_count(self.slots@)
        &&& self.parallel > 0 ==> self.in_flight <= self.parallel
        &&& forall|j: int|
            0 <= j < self.slots@.len() ==> (#[trigger] self.slots@[j] matches SlotState::Running(
                a,
            ) ==> a <= self.retries)
        &&& match self.failure {
            Some(i) => i < self.slots@.len() && self.slots@[i as int] is Failed,
            None => forall|j: int|
                0 <= j < self.slots@.len() ==> !(#[trigger] self.slots@[j] is Failed),
        }
    }

    /// A batch of `total` resources, none dispatched yet.
    pub fn new(total: usize, parallel: usize, retries: usize) -> (r: Uploader)
        ensures
            r.wf(),
            r.spec_parallel() == parallel,
            r.spec_retries() == retries,
            r.spec_failure() is None,
            r.spec_slots() == Seq::new(total as nat, |j: int| SlotState::Pending),
    {
        let mut slots: Vec<SlotState> = Vec::new();
        let mut k: usize = 0;
        while k < total
            invariant
                k <= total,
                slots@ == Seq::new(k as nat, |j: int| SlotState::Pending),
            decreases total - k,
        {
            slots.push(SlotState::Pending);
            k = k + 1;
            assert(slots@ =~= Seq::new(k as nat, |j: int| SlotState::Pending));
        }
        let r = Uploader { parallel, retries, slots, next: 0, in_flight: 0, failure: None };
        proof {
            assert(running_count(r.slots@) == 0) by {
                lemma_count_zero_of_pending(r.slots@);
            }
        }
        r
    }

    /// A batch of `total` resources under the given worker budget and retry policy.
    pub fn with_config(total: usize, concurrent: &Concurrent, retry: &Retry) -> (r: Uploader)
        ensures
            r.wf(),
            r.spec_parallel() == concurrent.parallel,
            r.spec_retries() == retry.attempts,
            r.spec_failure() is None,
            r.spec_slots() == Seq::new(total as nat, |j: int| SlotState::Pending),
    {
        Uploader::new(total, concurrent.parallel, retry.attempts)
    }

    /// Decides the next step. After a failure nothing more is dispatched; a
    /// resource is dispatched only while the worker budget has room.
    pub fn poll(&mut self) -> (r: Step)
        requires
            old(self).wf(),
        ensures
            final(self).wf(),
            final(self).spec_parallel() == old(self).spec_parallel(),
            final(self).spec_retries() == old(self).spec_retries(),
            final(self).spec_failure() == old(self).spec_failure(),
            old(self).spec_failure() matches Some(i) ==> r == Step::Aborted(i),
            old(self).spec_failure() is Some ==> final(self).spec_slots() == old(self).spec_slots(),
            r matches Step::Start(i) ==> old(self).spec_failure() is None,
            r matches Step::Start(i) ==> i < old(self).spec_slots().len(),
            r matches Step::Start(i) ==> old(self).spec_slots()[i as int] is Pending,
            r matches Step::Start(i) ==> old(self).spec_parallel() == 0 || running_count(old(self).spec_slots()) < old(self).spec_parallel(),
            r matches Step::Start(i) ==> final(self).spec_slots() == old(self).spec_slots().update(i as int, SlotState::Running(0)),
            r is Wait ==> old(self).spec_failure() is None,
            r is Wait ==> running_count(old(self).spec_slots()) > 0,
            r is Wait ==> final(self).spec_slots() == old(self).spec_slots(),
            r is Wait ==> (forall|j: int| 0 <= j < old(self).spec_slots().len() ==> !(#[trigger] old(self).spec_slots()[j] is Pending))
                || (old(self).spec_parallel() > 0 && running_count(old(self).spec_slots()) == old(self).spec_parallel()),
            r matches Step::Aborted(i) ==> old(self).spec_failure() == Some(i),
            r is Finished ==> final(self).spec_slots() == old(self).spec_slots(),
            r is Finished ==> forall|j: int|
                0 <= j < old(self).spec_slots().len() ==> #[trigger] old(self).spec_slots()[j] is Succeeded,
    {
        if let Some(i) = self.failure {
            return Step::Aborted(i);
        }
        if self.next < self.slots.len() && (self.parallel == 0 || self.in_flight < self.parallel) {
            let i = self.next;
            proof {
                lemma_count_update(self.slots@, i as int, SlotState::Running(0));
                lemma_count_below_len(self.slots@, i as int);
            }
            self.slots.set(i, SlotState::Running(0));
            self.next = i + 1;
            self.in_flight = self.in_flight + 1;
            proof {
                assert forall|j: int| 0 <= j < self.slots@.len() implies ((
                #[trigger] self.slots@[j] is Pending) <==> j >= self.next) by {
                    if j != i {
                        assert(self.slots@[j] == old(self).slots@[j]);
                    }
                }
                assert forall|j: int| 0 <= j < self.slots@.len() implies !(
                #[trigger] self.slots@[j] is Failed) by {
                    if j != i {
                        assert(self.slots@[j] == old(self).slots@[j]);
                    }
                }
            }
            return Step::Start(i);
        }
        if self.in_flight > 0 {
            return Step::Wait;
        }
        proof {
            lemma_count_zero(self.slots@);
            assert forall|j: int| 0 <= j < self.slots@.len() implies (
            #[trigger] self.slots@[j]) is Succeeded by {
                assert(!(self.slots@[j] is Pending));
                assert(!(self.slots@[j] is Running));
                assert(!(self.slots@[j] is Failed));
            }
        }
        Step::Finished
    }

    /// Whether the resource at `i` holds a worker, so that an attempt on it can
    /// be reported.
    pub fn is_running(&self, i: usize) -> (r: bool)
        ensures
            r == (i < self.spec_slots().len() && self.spec_slots()[i as int] is Running),
    {
        i < self.slots.len() && matches!(self.slots[i], SlotState::Running(_))
    }

    /// Records how an attempt on the running resource `i` went. A failed attempt
    /// is retried while attempts are left; the last one fails the batch.
    pub fn report(&mut self, i: usize, ok: bool) -> (r: Attempt)
        requires
            old(self).wf(),
            i < old(self).spec_slots().len(),
            old(self).spec_slots()[i as int] is Running,
        ensures
            final(self).wf(),
            final(self).spec_parallel() == old(self).spec_parallel(),
            final(self).spec_retries() == old(self).spec_retries(),
            ok ==> r is Done,
            ok ==> final(self).spec_slots() == old(self).spec_slots().update(i as int, SlotState::Succeeded),
            ok ==> final(self).spec_failure() == old(self).spec_failure(),
            !ok && old(self).spec_slots()[i as int]->Running_0 < old(self).spec_retries() ==> r is Retry,
            !ok && old(self).spec_slots()[i as int]->Running_0 < old(self).spec_retries() ==> final(self).spec_slots() == old(self).spec_slots().update(i as int, SlotState::Running((old(self).spec_slots()[i as int]->Running_0 + 1) as usize)),
            !ok && old(self).spec_slots()[i as int]->Running_0 < old(self).spec_retries() ==> final(self).spec_failure() == old(self).spec_failure(),
            !ok && old(self).spec_slots()[i as int]->Running_0 >= old(self).spec_retries() ==> r is Exhausted,
            !ok && old(self).spec_slots()[i as int]->Running_0 >= old(self).spec_retries() ==> final(self).spec_slots() == old(self).spec_slots().update(i as int, SlotState::Failed),
            !ok && old(self).spec_slots()[i as int]->Running_0 >= old(self).spec_retries() ==> final(self).spec_failure() == (if old(self).spec_failure() is Some { old(self).spec_failure() } else { Some(i) }),
    {
        let a = match self.slots[i] {
            SlotState::Running(a) => a,
            _ => 0,
        };
        let (state, r) = if ok {
            (SlotState::Succeeded, Attempt::Done)
        } else if a < self.retries {
            (SlotState::Running(a + 1), Attempt::Retry)
        } else {
            (SlotState::Failed, Attempt::Exhausted)
        };
        proof {
            lemma_count_update(self.slots@, i as int, state);
        }
        self.slots.set(i, state);
        if !matches!(state, SlotState::Running(_)) {
            self.in_flight = self.in_flight - 1;
        }
        if matches!(state, SlotState::Failed) && self.failure.is_none() {
            self.failure = Some(i);
        }
        proof {
            assert forall|j: int| 0 <= j < self.slots@.len() implies ((
            #[trigger] self.slots@[j] is Pending) <==> j >= self.next) by {
                if j != i {
                    assert(self.slots@[j] == old(self).slots@[j]);
                }
            }
            assert forall|j: int| 0 <= j < self.slots@.len() implies (
            #[trigger] self.slots@[j] matches SlotState::Running(b) ==> b <= self.retries) by {
                if j != i {
                    assert(self.slots@[j] == old(self).slots@[j]);
                }
            }
            if self.failure is None {
                assert forall|j: int| 0 <= j < self.slots@.len() implies !(
                #[trigger] self.slots@[j] is Failed) by {
                    if j != i {
                        assert(self.slots@[j] == old(self).slots@[j]);
                    }
                }
            }
        }
        r
    }
}

proof fn lemma_count_zero_of_pending(s: Seq<SlotState>)
    requires
        forall|j: int| 0 <= j < s.len() ==> #[trigger] s[j] is Pending,
    ensures
        running_count(s) == 0,
    decreases s.len(),
{
    if s.len() > 0 {
        lemma_count_zero_of_pending(s.drop_last());
    }
}

/// The worker budget holds in every state: with a budget of `parallel > 0`, no
/// more than `parallel` resources hold a worker.
pub proof fn budget_respected(u: &Uploader)
    requires
        u.wf(),
    ensures
        u.spec_parallel() > 0 ==> running_count(u.spec_slots()) <= u.spec_parallel(),
{
}

/// Once a resource has run out of attempts the batch stays failed: a failure is
/// on record, so every later `poll` answers `Aborted` and dispatches nothing.
pub proof fn failure_stops_dispatch(u: &Uploader, j: int)
    requires
        u.wf(),
        0 <= j < u.spec_slots().len(),
        u.spec_slots()[j] is Failed,
    ensures
        u.spec_failure() is Some,
{
}

} // verus!
