//! One fetch pass over a set of feeds: a counting admission gate that bounds
//! the attempts in flight, a retry budget per feed, and the partition of the
//! feeds into successes and failures.
//!
//! The pass is a state machine. Its driver asks for the next feed to fetch
//! with [`FetchScheduler::next_attempt`], performs the request, and hands the outcome
//! back with [`FetchScheduler::record`], until [`FetchScheduler::is_settled`].

use vstd::prelude::*;

use crate::feed::Feed;

verus! {

/// Why one attempt to fetch a feed failed.
#[derive(Debug, Clone, PartialEq, Eq)]
pub enum FetcherError {
    /// The request could not be sent, or no response came.
    Connection(String),
    /// The server answered with a status outside `200..=299`.
    Status(u16),
    /// The server answered, but its body could not be read in full.
    Body(String),
    /// The pass was cancelled before the feed settled.
    Cancelled,
}

/// Whether a response with HTTP status `status` carries the feed: a status
/// in `200..=299` does; any other is the failure `Status(status)`.
pub fn check_status(status: u16) -> (r: Result<(), FetcherError>)
    ensures
        200 <= status <= 299 ==> r is Ok,
        !(200 <= status <= 299) ==> r == Err::<(), FetcherError>(FetcherError::Status(status)),
{
    if 200 <= status && status <= 299 {
        Ok(())
    } else {
        Err(FetcherError::Status(status))
    }
}

/// What one finished attempt produced: the payload, or why it failed.
pub type AttemptOutcome = Result<Seq<u8>, FetcherError>;

pub open spec fn outcome_of(r: Result<Vec<u8>, FetcherError>) -> AttemptOutcome {
    match r {
        Ok(p) => Ok(p@),
        Err(e) => Err(e),
    }
}

/// Where one feed stands within a pass.
#[derive(Debug)]
pub enum FeedStatus {
    /// Not being fetched; to be admitted for its first or a further attempt.
    Waiting,
    /// An attempt is running.
    InFlight,
    /// An attempt returned this payload.
    Succeeded(Vec<u8>),
    /// Given up on, for this reason.
    Failed(FetcherError),
}

impl FeedStatus {
    pub open spec fn is_open(&self) -> bool {
        self is Waiting || self is InFlight
    }

    pub fn is_waiting(&self) -> (r: bool)
        ensures
            r == self is Waiting,
    {
        match self {
            FeedStatus::Waiting => true,
            _ => false,
        }
    }

    pub fn is_in_flight(&self) -> (r: bool)
        ensures
            r == self is InFlight,
    {
        match self {
            FeedStatus::InFlight => true,
            _ => false,
        }
    }
}

/// Every attempt in `h` failed.
pub open spec fn all_failed(h: Seq<AttemptOutcome>) -> bool {
    forall|k: int| 0 <= k < h.len() ==> #[trigger] h[k] is Err
}

/// How a feed's status follows from its budget and the outcomes of its
/// finished attempts: it succeeds on the first payload, is retried while
/// attempts are left, and otherwise fails with the last reason, unless the
/// pass was cancelled first.
pub open spec fn feed_consistent(
    budget: nat,
    h: Seq<AttemptOutcome>,
    st: FeedStatus,
    cancelled: bool,
) -> bool {
    match st {
        FeedStatus::Waiting => !cancelled && all_failed(h) && h.len() < budget,
        FeedStatus::InFlight => !cancelled && all_failed(h) && h.len() < budget,
        FeedStatus::Succeeded(p) => {
            &&& 1 <= h.len() <= budget
            &&& all_failed(h.drop_last())
            &&& h.last() == Ok::<Seq<u8>, FetcherError>(p@)
        },
        FeedStatus::Failed(e) => {
            &&& all_failed(h)
            &&& {
                ||| h.len() == budget && h.last() == Err::<Seq<u8>, FetcherError>(e)
                ||| cancelled && h.len() < budget && e == FetcherError::Cancelled
            }
        },
    }
}

/// The status that a finished attempt leads to: `done` attempts have now
/// finished out of `budget`.
pub open spec fn next_status(budget: nat, done: nat, outcome: Result<Vec<u8>, FetcherError>) -> FeedStatus {
    match outcome {
        Ok(p) => FeedStatus::Succeeded(p),
        Err(e) => if done < budget {
            FeedStatus::Waiting
        } else {
            FeedStatus::Failed(e)
        },
    }
}

/// The positions of the attempts in flight.
pub open spec fn in_flight_of(st: Seq<FeedStatus>) -> Set<int> {
    Set::new(|i: int| 0 <= i < st.len() && st[i] is InFlight)
}

/// The positions of the succeeded feeds, in ascending order.
pub open spec fn succeeded_indices(st: Seq<FeedStatus>) -> Seq<int>
    decreases st.len(),
{
    if st.len() == 0 {
        Seq::empty()
    } else if st.last() is Succeeded {
        succeeded_indices(st.drop_last()).push(st.len() - 1)
    } else {
        succeeded_indices(st.drop_last())
    }
}

/// The positions of the failed feeds, in ascending order.
pub open spec fn failed_indices(st: Seq<FeedStatus>) -> Seq<int>
    decreases st.len(),
{
    if st.len() == 0 {
        Seq::empty()
    } else if st.last() is Failed {
        failed_indices(st.drop_last()).push(st.len() - 1)
    } else {
        failed_indices(st.drop_last())
    }
}

/// The number of `true` entries of `s`.
pub open spec fn count_true(s: Seq<bool>) -> nat
    decreases s.len(),
{
    if s.len() == 0 {
        0
    } else {
        count_true(s.drop_last()) + if s.last() {
            1nat
        } else {
            0nat
        }
    }
}

/// The sum of `s`.
pub open spec fn total(s: Seq<nat>) -> nat
    decreases s.len(),
{
    if s.len() == 0 {
        0
    } else {
        total(s.drop_last()) + s.last()
    }
}

/// Changing one entry changes the sum by the difference.
pub proof fn lemma_total_update(s: Seq<nat>, i: int, v: nat)
    requires
        0 <= i < s.len(),
    ensures
        total(s.update(i, v)) + s[i] == total(s) + v,
    decreases s.len(),
{
    let t = s.update(i, v);
    if i < s.len() - 1 {
        assert(t.drop_last() =~= s.drop_last().update(i, v));
        lemma_total_update(s.drop_last(), i, v);
    } else {
        assert(t.drop_last() =~= s.drop_last());
    }
}

/// A sum of entries is zero exactly when every entry is.
pub proof fn lemma_total_zero(s: Seq<nat>)
    ensures
        total(s) == 0 <==> forall|i: int| 0 <= i < s.len() ==> #[trigger] s[i] == 0,
    decreases s.len(),
{
    if s.len() > 0 {
        lemma_total_zero(s.drop_last());
        if total(s) == 0 {
            assert forall|i: int| 0 <= i < s.len() implies #[trigger] s[i] == 0 by {
                if i < s.len() - 1 {
                    assert(s[i] == s.drop_last()[i]);
                }
            }
        }
        if forall|i: int| 0 <= i < s.len() ==> #[trigger] s[i] == 0 {
            assert forall|i: int| 0 <= i < s.drop_last().len() implies #[trigger] s.drop_last()[i] == 0 by {
                assert(s.drop_last()[i] == s[i]);
            }
            assert(s[s.len() - 1] == 0);
        }
    }
}

/// The attempts still owed to a feed: what its budget leaves while it is
/// open, nothing once it has settled.
pub open spec fn owed(budget: nat, h: Seq<AttemptOutcome>, st: FeedStatus) -> nat {
    if st.is_open() && h.len() < budget {
        (budget - h.len()) as nat
    } else {
        0
    }
}

/// What a settled pass produced: each feed appears once, with its payload or
/// with the reason it was given up on.
#[derive(Debug)]
pub struct FetchResults<'a> {
    pub successful: Vec<(&'a Feed, Vec<u8>)>,
    pub failed: Vec<(&'a Feed, FetcherError)>,
}

/// The state of one fetch pass.
pub struct FetchScheduler<'a> {
    feeds: &'a [Feed],
    budgets: Vec<usize>,
    finished: Vec<usize>,
    status: Vec<FeedStatus>,
    in_flight: usize,
    ceiling: usize,
    cancelled: bool,
    history: Ghost<Seq<Seq<AttemptOutcome>>>,
    flying: Ghost<Set<int>>,
}

impl<'a> FetchScheduler<'a> {
    pub closed spec fn feeds(&self) -> Seq<Feed> {
        self.feeds@
    }

    /// The number of feeds in the pass.
    pub open spec fn spec_len(&self) -> nat {
        self.feeds().len()
    }

    /// The most attempts that feed `i` gets.
    pub closed spec fn budget(&self, i: int) -> nat {
        self.budgets@[i] as nat
    }

    /// The outcomes of the finished attempts for feed `i`, oldest first.
    pub closed spec fn history(&self, i: int) -> Seq<AttemptOutcome> {
        self.history@[i]
    }

    pub closed spec fn statuses(&self) -> Seq<FeedStatus> {
        self.status@
    }

    pub closed spec fn spec_in_flight(&self) -> nat {
        self.in_flight as nat
    }

    pub closed spec fn spec_ceiling(&self) -> nat {
        self.ceiling as nat
    }

    pub closed spec fn spec_cancelled(&self) -> bool {
        self.cancelled
    }

    /// No feed is waiting or in flight.
    pub open spec fn spec_is_settled(&self) -> bool {
        forall|i: int| 0 <= i < self.spec_len() ==> !(#[trigger] self.statuses()[i]).is_open()
    }

    /// The attempts still owed, over all feeds.
    pub closed spec fn work_left(&self) -> nat {
        total(
            Seq::new(
                self.status@.len(),
                |i: int| owed(self.budgets@[i] as nat, self.history@[i], self.status@[i]),
            ),
        )
    }

    pub closed spec fn wf(&self) -> bool {
        let n = self.feeds@.len();
        &&& self.budgets@.len() == n
        &&& self.finished@.len() == n
        &&& self.status@.len() == n
        &&& self.history@.len() == n
        &&& forall|i: int|
            0 <= i < n ==> {
                &&& #[trigger] self.budgets@[i] == self.feeds@[i].spec_update_retries().count()
                &&& 1 <= self.budgets@[i] <= 10
            }
        &&& forall|i: int| 0 <= i < n ==> #[trigger] self.finished@[i] == self.history@[i].len()
        &&& forall|i: int|
            0 <= i < n ==> feed_consistent(
                self.budgets@[i] as nat,
                #[trigger] self.history@[i],
                self.status@[i],
                self.cancelled,
            )
        &&& self.flying@ == in_flight_of(self.status@)
        &&& self.flying@.finite()
        &&& self.in_flight == self.flying@.len()
        &&& self.in_flight <= self.ceiling
        &&& self.ceiling >= 1
    }

    /// A fresh pass over `feeds`, with at most `ceiling` attempts in flight at
    /// once; every feed waits for its first attempt.
    pub fn new(feeds: &'a [Feed], ceiling: usize) -> (r: Self)
        requires
            feeds@.len() > 0,
            ceiling > 0,
        ensures
            r.wf(),
            r.feeds() == feeds@,
            r.spec_ceiling() == ceiling,
            r.spec_in_flight() == 0,
            !r.spec_cancelled(),
            r.statuses().len() == feeds@.len(),
            forall|i: int| 0 <= i < feeds@.len() ==> {
                &&& #[trigger] r.statuses()[i] is Waiting
                &&& r.history(i).len() == 0
                &&& r.budget(i) == feeds@[i].spec_update_retries().count()
            },
    {
        let n = feeds.len();
        let mut budgets: Vec<usize> = Vec::new();
        let mut finished: Vec<usize> = Vec::new();
        let mut status: Vec<FeedStatus> = Vec::new();
        let mut i: usize = 0;
        while i < n
            invariant
                n == feeds@.len(),
                i <= n,
                budgets@.len() == i,
                finished@.len() == i,
                status@.len() == i,
                forall|j: int| 0 <= j < i ==> {
                    &&& #[trigger] budgets@[j] == feeds@[j].spec_update_retries().count()
                    &&& 1 <= budgets@[j] <= 10
                    &&& finished@[j] == 0
                },
                forall|j: int| 0 <= j < i ==> #[trigger] status@[j] is Waiting,
            decreases n - i,
        {
            let b = feeds[i].update_retries().as_usize();
            budgets.push(b);
            finished.push(0);
            status.push(FeedStatus::Waiting);
            i = i + 1;
        }
        let ghost history = Seq::new(n as nat, |j: int| Seq::<AttemptOutcome>::empty());
        let ghost flying = Set::<int>::empty();
        assert(flying =~= in_flight_of(status@));
        assert forall|j: int| 0 <= j < n implies feed_consistent(
            budgets@[j] as nat,
            #[trigger] history[j],
            status@[j],
            false,
        ) by {
            assert(status@[j] is Waiting);
        }
        FetchScheduler {
            feeds,
            budgets,
            finished,
            status,
            in_flight: 0,
            ceiling,
            cancelled: false,
            history: Ghost(history),
            flying: Ghost(flying),
        }
    }
    /// Admits the lowest-indexed waiting feed for an attempt, where the pass is
    /// not cancelled and fewer than `ceiling` attempts are in flight; otherwise
    /// admits nothing and changes nothing.
    pub fn next_attempt(&mut self) -> (r: Option<usize>)
        requires
            old(self).wf(),
        ensures
            final(self).wf(),
            final(self).feeds() == old(self).feeds(),
            final(self).spec_ceiling() == old(self).spec_ceiling(),
            final(self).spec_cancelled() == old(self).spec_cancelled(),
            forall|j: int| 0 <= j < old(self).spec_len() ==> {
                &&& #[trigger] final(self).history(j) == old(self).history(j)
                &&& final(self).budget(j) == old(self).budget(j)
            },
            r is None <==> (old(self).spec_cancelled() || old(self).spec_in_flight()
                == old(self).spec_ceiling() || forall|j: int|
                0 <= j < old(self).spec_len() ==> !(#[trigger] old(self).statuses()[j] is Waiting)),
            r is None ==> final(self).statuses() == old(self).statuses()
                && final(self).spec_in_flight() == old(self).spec_in_flight(),
            final(self).work_left() == old(self).work_left(),
            r matches Some(i) ==> {
                &&& i < old(self).spec_len()
                &&& old(self).statuses()[i as int] is Waiting
                &&& forall|j: int| 0 <= j < i ==> !(#[trigger] old(self).statuses()[j] is Waiting)
                &&& final(self).statuses() == old(self).statuses().update(i as int, FeedStatus::InFlight)
                &&& final(self).spec_in_flight() == old(self).spec_in_flight() + 1
            },
    {
        if self.cancelled || self.in_flight >= self.ceiling {
            return None;
        }
        let n = self.status.len();
        let mut i: usize = 0;
        while i < n
            invariant
                self.wf(),
                *self == *old(self),
                n == self.status@.len(),
                i <= n,
                !self.cancelled,
                self.in_flight < self.ceiling,
                forall|j: int| 0 <= j < i ==> !(#[trigger] self.status@[j] is Waiting),
            decreases n - i,
        {
            if self.status[i].is_waiting() {
                proof {
                    assert(in_flight_of(self.status@.update(i as int, FeedStatus::InFlight))
                        =~= self.flying@.insert(i as int));
                    assert(!self.flying@.contains(i as int));
                }
                self.status.set(i, FeedStatus::InFlight);
                self.flying = Ghost(self.flying@.insert(i as int));
                self.in_flight = self.in_flight + 1;
                proof {
                    let a = Seq::new(
                        n as nat,
                        |k: int| owed(old(self).budgets@[k] as nat, old(self).history@[k], old(self).status@[k]),
                    );
                    let b = Seq::new(
                        n as nat,
                        |k: int| owed(self.budgets@[k] as nat, self.history@[k], self.status@[k]),
                    );
                    assert(a =~= b);
                    assert forall|j: int| 0 <= j < n implies feed_consistent(
                        self.budgets@[j] as nat,
                        #[trigger] self.history@[j],
                        self.status@[j],
                        self.cancelled,
                    ) by {
                        if j == i {
                        }
                    }
                }
                return Some(i);
            }
            i = i + 1;
        }
        None
    }

    /// Hands back the outcome of the attempt running for feed `i`. A payload
    /// settles the feed as a success; a failure sends it back to wait while
    /// attempts are left, and otherwise settles it as failed with this reason.
    /// Where no attempt is running for `i` (the pass was cancelled meanwhile)
    /// nothing changes and `false` comes back.
    pub fn record(&mut self, i: usize, outcome: Result<Vec<u8>, FetcherError>) -> (r: bool)
        requires
            old(self).wf(),
        ensures
            final(self).wf(),
            final(self).feeds() == old(self).feeds(),
            final(self).spec_ceiling() == old(self).spec_ceiling(),
            final(self).spec_cancelled() == old(self).spec_cancelled(),
            forall|j: int| 0 <= j < old(self).spec_len() ==> #[trigger] final(self).budget(j) == old(self).budget(j),
            r == (i < old(self).spec_len() && old(self).statuses()[i as int] is InFlight),
            r ==> final(self).work_left() < old(self).work_left(),
            !r ==> final(self).work_left() == old(self).work_left(),
            !r ==> {
                &&& final(self).statuses() == old(self).statuses()
                &&& final(self).spec_in_flight() == old(self).spec_in_flight()
                &&& forall|j: int| 0 <= j < old(self).spec_len() ==> #[trigger] final(self).history(j) == old(self).history(j)
            },
            r ==> {
                &&& final(self).history(i as int) == old(self).history(i as int).push(outcome_of(outcome))
                &&& forall|j: int| 0 <= j < old(self).spec_len() && j != i ==> #[trigger] final(self).history(j) == old(self).history(j)
                &&& final(self).statuses() == old(self).statuses().update(
                    i as int,
                    next_status(old(self).budget(i as int), old(self).history(i as int).len() + 1, outcome),
                )
                &&& final(self).spec_in_flight() == old(self).spec_in_flight() - 1
            },
    {
        if i >= self.status.len() || !self.status[i].is_in_flight() {
            return false;
        }
        let ghost h = self.history@[i as int].push(outcome_of(outcome));
        let done = self.finished[i] + 1;
        let next = match outcome {
            Ok(p) => FeedStatus::Succeeded(p),
            Err(e) => if done < self.budgets[i] {
                FeedStatus::Waiting
            } else {
                FeedStatus::Failed(e)
            },
        };
        let ghost a = Seq::new(
            self.status@.len(),
            |k: int| owed(self.budgets@[k] as nat, self.history@[k], self.status@[k]),
        );
        let ghost v = owed(self.budgets@[i as int] as nat, h, next);
        proof {
            assert(in_flight_of(self.status@.update(i as int, next)) =~= self.flying@.remove(i as int));
            assert(h.drop_last() == self.history@[i as int]);
        }
        self.status.set(i, next);
        self.finished.set(i, done);
        self.history = Ghost(self.history@.update(i as int, h));
        self.flying = Ghost(self.flying@.remove(i as int));
        self.in_flight = self.in_flight - 1;
        proof {
            assert forall|j: int| 0 <= j < self.status@.len() implies feed_consistent(
                self.budgets@[j] as nat,
                #[trigger] self.history@[j],
                self.status@[j],
                self.cancelled,
            ) by {
                if j == i {
                    if h.last() is Err {
                        assert(all_failed(h));
                    }
                }
            }
            let b = Seq::new(
                self.status@.len(),
                |k: int| owed(self.budgets@[k] as nat, self.history@[k], self.status@[k]),
            );
            assert(b =~= a.update(i as int, v));
            lemma_total_update(a, i as int, v);
        }
        true
    }

    /// Stops the pass: nothing more is admitted, and every feed that is
    /// waiting or in flight is settled as failed with `Cancelled`.
    pub fn cancel(&mut self)
        requires
            old(self).wf(),
        ensures
            final(self).wf(),
            final(self).feeds() == old(self).feeds(),
            final(self).spec_ceiling() == old(self).spec_ceiling(),
            final(self).spec_cancelled(),
            final(self).spec_in_flight() == 0,
            final(self).spec_is_settled(),
            final(self).statuses().len() == old(self).statuses().len(),
            forall|j: int| 0 <= j < old(self).spec_len() ==> {
                &&& #[trigger] final(self).history(j) == old(self).history(j)
                &&& final(self).budget(j) == old(self).budget(j)
                &&& final(self).statuses()[j] == if old(self).statuses()[j].is_open() {
                    FeedStatus::Failed(FetcherError::Cancelled)
                } else {
                    old(self).statuses()[j]
                }
            },
    {
        let ghost old_status = self.status@;
        let n = self.status.len();
        self.cancelled = true;
        let mut i: usize = 0;
        while i < n
            invariant
                n == self.status@.len(),
                n == old_status.len(),
                i <= n,
                self.cancelled,
                self.feeds == old(self).feeds,
                self.ceiling == old(self).ceiling,
                self.budgets == old(self).budgets,
                self.finished == old(self).finished,
                self.history == old(self).history,
                self.feeds@.len() == n,
                self.budgets@.len() == n,
                self.finished@.len() == n,
                self.history@.len() == n,
                self.ceiling >= 1,
                forall|j: int| 0 <= j < n ==> {
                    &&& #[trigger] self.budgets@[j] == self.feeds@[j].spec_update_retries().count()
                    &&& 1 <= self.budgets@[j] <= 10
                    &&& self.finished@[j] == self.history@[j].len()
                },
                forall|j: int| 0 <= j < n ==> feed_consistent(
                    self.budgets@[j] as nat,
                    #[trigger] self.history@[j],
                    old_status[j],
                    false,
                ) || feed_consistent(self.budgets@[j] as nat, self.history@[j], old_status[j], true),
                forall|j: int| 0 <= j < i ==> #[trigger] self.status@[j] == if old_status[j].is_open() {
                    FeedStatus::Failed(FetcherError::Cancelled)
                } else {
                    old_status[j]
                },
                forall|j: int| i <= j < n ==> #[trigger] self.status@[j] == old_status[j],
            decreases n - i,
        {
            if self.status[i].is_waiting() || self.status[i].is_in_flight() {
                self.status.set(i, FeedStatus::Failed(FetcherError::Cancelled));
            }
            i = i + 1;
        }
        self.in_flight = 0;
        self.flying = Ghost(Set::empty());
        proof {
            assert(self.flying@ =~= in_flight_of(self.status@));
            assert forall|j: int| 0 <= j < n implies feed_consistent(
                self.budgets@[j] as nat,
                #[trigger] self.history@[j],
                self.status@[j],
                true,
            ) by {
                assert(feed_consistent(self.budgets@[j] as nat, self.history@[j], old_status[j], false)
                    || feed_consistent(self.budgets@[j] as nat, self.history@[j], old_status[j], true));
            }
            assert forall|j: int| 0 <= j < n implies !(#[trigger] self.status@[j]).is_open() by {
                assert(self.status@[j] == if old_status[j].is_open() {
                    FeedStatus::Failed(FetcherError::Cancelled)
                } else {
                    old_status[j]
                });
            }
        }
    }

    /// Whether no feed is waiting or in flight.
    pub fn is_settled(&self) -> (r: bool)
        requires
            self.wf(),
        ensures
            r == self.spec_is_settled(),
    {
        let n = self.status.len();
        let mut i: usize = 0;
        while i < n
            invariant
                self.wf(),
                n == self.status@.len(),
                i <= n,
                forall|j: int| 0 <= j < i ==> !(#[trigger] self.status@[j]).is_open(),
            decreases n - i,
        {
            if self.status[i].is_waiting() || self.status[i].is_in_flight() {
                assert(self.statuses()[i as int].is_open());
                return false;
            }
            i = i + 1;
        }
        true
    }

    /// The number of feeds in the pass.
    pub fn len(&self) -> (r: usize)
        requires
            self.wf(),
        ensures
            r == self.spec_len(),
    {
        self.feeds.len()
    }

    /// Feed `i`.
    pub fn feed(&self, i: usize) -> (r: &'a Feed)
        requires
            i < self.spec_len(),
        ensures
            *r == self.feeds()[i as int],
    {
        &self.feeds[i]
    }

    /// Where feed `i` stands.
    pub fn status(&self, i: usize) -> (r: &FeedStatus)
        requires
            self.wf(),
            i < self.spec_len(),
        ensures
            *r == self.statuses()[i as int],
    {
        &self.status[i]
    }

    /// The number of finished attempts for feed `i`.
    pub fn attempts(&self, i: usize) -> (r: usize)
        requires
            self.wf(),
            i < self.spec_len(),
        ensures
            r == self.history(i as int).len(),
    {
        self.finished[i]
    }

    /// The number of attempts in flight.
    pub fn in_flight(&self) -> (r: usize)
        ensures
            r == self.spec_in_flight(),
    {
        self.in_flight
    }

    /// The most attempts allowed in flight at once.
    pub fn ceiling(&self) -> (r: usize)
        ensures
            r == self.spec_ceiling(),
    {
        self.ceiling
    }

    /// The settled pass, split into the feeds that succeeded, with their
    /// payloads, and those that failed, with their reasons; each feed appears
    /// once, in the order of `feeds`.
    pub fn into_results(self) -> (r: FetchResults<'a>)
        requires
            self.wf(),
            self.spec_is_settled(),
        ensures
            r.successful@.len() + r.failed@.len() == self.spec_len(),
            r.successful@.len() == succeeded_indices(self.statuses()).len(),
            r.failed@.len() == failed_indices(self.statuses()).len(),
            forall|k: int| 0 <= k < r.successful@.len() ==> {
                let j = succeeded_indices(self.statuses())[k];
                &&& 0 <= j < self.spec_len()
                &&& *(#[trigger] r.successful@[k]).0 == self.feeds()[j]
                &&& self.statuses()[j] == FeedStatus::Succeeded(r.successful@[k].1)
            },
            forall|k: int| 0 <= k < r.failed@.len() ==> {
                let j = failed_indices(self.statuses())[k];
                &&& 0 <= j < self.spec_len()
                &&& *(#[trigger] r.failed@[k]).0 == self.feeds()[j]
                &&& self.statuses()[j] == FeedStatus::Failed(r.failed@[k].1)
            },
    {
        let ghost st = self.status@;
        proof {
            lemma_partition(st);
        }
        let feeds = self.feeds;
        let mut status = self.status;
        let n = status.len();
        let mut successful: Vec<(&'a Feed, Vec<u8>)> = Vec::new();
        let mut failed: Vec<(&'a Feed, FetcherError)> = Vec::new();
        let mut i: usize = 0;
        assert(st.subrange(0, n as int) =~= st);
        assert(st.subrange(0, 0) =~= Seq::<FeedStatus>::empty());
        while i < n
            invariant
                n == st.len(),
                n == feeds@.len(),
                i <= n,
                status@ == st.subrange(i as int, n as int),
                forall|j: int| 0 <= j < n ==> !(#[trigger] st[j]).is_open(),
                successful@.len() == succeeded_indices(st.subrange(0, i as int)).len(),
                failed@.len() == failed_indices(st.subrange(0, i as int)).len(),
                forall|k: int| 0 <= k < successful@.len() ==> {
                    let j = succeeded_indices(st.subrange(0, i as int))[k];
                    &&& *(#[trigger] successful@[k]).0 == feeds@[j]
                    &&& st[j] == FeedStatus::Succeeded(successful@[k].1)
                },
                forall|k: int| 0 <= k < failed@.len() ==> {
                    let j = failed_indices(st.subrange(0, i as int))[k];
                    &&& *(#[trigger] failed@[k]).0 == feeds@[j]
                    &&& st[j] == FeedStatus::Failed(failed@[k].1)
                },
            decreases n - i,
        {
            let ghost prefix = st.subrange(0, i + 1);
            assert(prefix.drop_last() =~= st.subrange(0, i as int));
            assert(prefix.last() == st[i as int]);
            let entry = status.remove(0);
            assert(entry == st[i as int]);
            assert(status@ =~= st.subrange(i + 1, n as int));
            let feed: &'a Feed = &feeds[i];
            proof {
                if !(st[i as int] is Succeeded) {
                    assert(succeeded_indices(prefix) == succeeded_indices(st.subrange(0, i as int)));
                }
                if !(st[i as int] is Failed) {
                    assert(failed_indices(prefix) == failed_indices(st.subrange(0, i as int)));
                }
            }
            match entry {
                FeedStatus::Succeeded(p) => {
                    let ghost before = successful@;
                    successful.push((feed, p));
                    proof {
                        let idx = succeeded_indices(prefix);
                        assert(idx == succeeded_indices(st.subrange(0, i as int)).push(i as int));
                        assert forall|k: int| 0 <= k < successful@.len() implies {
                            let j = idx[k];
                            &&& *(#[trigger] successful@[k]).0 == feeds@[j]
                            &&& st[j] == FeedStatus::Succeeded(successful@[k].1)
                        } by {
                            if k < before.len() {
                                assert(successful@[k] == before[k]);
                            }
                        }
                    }
                },
                FeedStatus::Failed(e) => {
                    failed.push((feed, e));
                },
                _ => {
                    assert(st[i as int].is_open());
                },
            }
            i = i + 1;
        }
        assert(st.subrange(0, n as int) =~= st);
        proof {
            lemma_indices_in_range(st);
        }
        FetchResults { successful, failed }
    }

}

/// In a sequence of settled statuses every position is either a success or a
/// failure.
pub proof fn lemma_partition(st: Seq<FeedStatus>)
    requires
        forall|j: int| 0 <= j < st.len() ==> !(#[trigger] st[j]).is_open(),
    ensures
        succeeded_indices(st).len() + failed_indices(st).len() == st.len(),
    decreases st.len(),
{
    if st.len() > 0 {
        let init = st.drop_last();
        assert forall|j: int| 0 <= j < init.len() implies !(#[trigger] init[j]).is_open() by {
            assert(init[j] == st[j]);
        }
        lemma_partition(init);
        assert(!st[st.len() - 1].is_open());
    }
}

/// The positions listed as successes or failures are positions of `st`.
pub proof fn lemma_indices_in_range(st: Seq<FeedStatus>)
    ensures
        forall|k: int|
            0 <= k < succeeded_indices(st).len() ==> 0 <= #[trigger] succeeded_indices(st)[k] < st.len(),
        forall|k: int|
            0 <= k < failed_indices(st).len() ==> 0 <= #[trigger] failed_indices(st)[k] < st.len(),
    decreases st.len(),
{
    if st.len() > 0 {
        let init = st.drop_last();
        lemma_indices_in_range(init);
        let (a, b) = (succeeded_indices(init), succeeded_indices(st));
        assert forall|k: int| 0 <= k < b.len() implies 0 <= #[trigger] b[k] < st.len() by {
            if k < a.len() {
                assert(b[k] == a[k]);
            }
        }
        let (c, d) = (failed_indices(init), failed_indices(st));
        assert forall|k: int| 0 <= k < d.len() implies 0 <= #[trigger] d[k] < st.len() by {
            if k < c.len() {
                assert(d[k] == c[k]);
            }
        }
    }
}

/// Successes counted position by position match the marks of `ok`.
proof fn lemma_count_matches(st: Seq<FeedStatus>, ok: Seq<bool>)
    requires
        st.len() == ok.len(),
        forall|j: int| 0 <= j < st.len() ==> ((#[trigger] st[j] is Succeeded) <==> ok[j]),
    ensures
        succeeded_indices(st).len() == count_true(ok),
    decreases st.len(),
{
    if st.len() > 0 {
        let (a, b) = (st.drop_last(), ok.drop_last());
        assert forall|j: int| 0 <= j < a.len() implies ((#[trigger] a[j] is Succeeded) <==> b[j]) by {
            assert(a[j] == st[j] && b[j] == ok[j]);
        }
        lemma_count_matches(a, b);
        assert(st[st.len() - 1] is Succeeded <==> ok[ok.len() - 1]);
    }
}

impl<'a> FetchScheduler<'a> {
    /// However a pass goes, the attempts in flight are exactly the feeds in
    /// flight, and never more than the ceiling.
    pub proof fn lemma_in_flight_bounded(&self)
        requires
            self.wf(),
        ensures
            self.spec_in_flight() == in_flight_of(self.statuses()).len(),
            self.spec_in_flight() <= self.spec_ceiling(),
    {
    }

    /// A pass owes no more attempts exactly when it has settled. Every
    /// accepted `record` lowers what is owed and `next_attempt` leaves it as
    /// it is, so a driver that keeps handing outcomes back settles the pass
    /// after at most `work_left()` of them.
    pub proof fn lemma_settled_iff_no_work(&self)
        requires
            self.wf(),
        ensures
            self.spec_is_settled() <==> self.work_left() == 0,
    {
        let a = Seq::new(
            self.status@.len(),
            |k: int| owed(self.budgets@[k] as nat, self.history@[k], self.status@[k]),
        );
        lemma_total_zero(a);
        assert forall|k: int| 0 <= k < a.len() implies (#[trigger] a[k] == 0 <==> !self.statuses()[k].is_open()) by {
            assert(feed_consistent(self.budgets@[k] as nat, self.history@[k], self.status@[k], self.cancelled));
        }
        if self.spec_is_settled() {
            assert forall|k: int| 0 <= k < a.len() implies #[trigger] a[k] == 0 by {
                assert(!self.statuses()[k].is_open());
            }
        }
        if self.work_left() == 0 {
            assert forall|k: int| 0 <= k < self.spec_len() implies !(#[trigger] self.statuses()[k]).is_open() by {
                assert(a[k] == 0);
            }
        }
    }

    /// A pass that is neither settled nor cancelled has an attempt in
    /// flight, or a waiting feed and room below the ceiling.
    pub proof fn lemma_progress(&self)
        requires
            self.wf(),
            !self.spec_is_settled(),
            !self.spec_cancelled(),
        ensures
            self.spec_in_flight() > 0 || (self.spec_in_flight() < self.spec_ceiling() && exists|j: int|
                0 <= j < self.spec_len() && #[trigger] self.statuses()[j] is Waiting),
    {
        let j = choose|j: int| 0 <= j < self.spec_len() && (#[trigger] self.statuses()[j]).is_open();
        if self.statuses()[j] is InFlight {
            assert(self.flying@.contains(j));
            assert(self.flying@.len() == self.flying@.remove(j).len() + 1);
        }
    }

    /// No feed gets more attempts than its budget; once a pass has settled
    /// without being cancelled, every feed has had at least one.
    pub proof fn lemma_attempts_within_budget(&self)
        requires
            self.wf(),
        ensures
            forall|i: int| 0 <= i < self.spec_len() ==> #[trigger] self.history(i).len() <= self.budget(i),
            self.spec_is_settled() && !self.spec_cancelled() ==> forall|i: int|
                0 <= i < self.spec_len() ==> #[trigger] self.history(i).len() >= 1,
    {
        assert forall|i: int| 0 <= i < self.spec_len() implies #[trigger] self.history(i).len() <= self.budget(i) by {
            assert(feed_consistent(self.budgets@[i] as nat, self.history@[i], self.status@[i], self.cancelled));
        }
        if self.spec_is_settled() && !self.spec_cancelled() {
            assert forall|i: int| 0 <= i < self.spec_len() implies #[trigger] self.history(i).len() >= 1 by {
                assert(feed_consistent(self.budgets@[i] as nat, self.history@[i], self.status@[i], false));
                assert(!self.statuses()[i].is_open());
                assert(1 <= self.budgets@[i]);
            }
        }
    }

    /// Where every attempt for a feed gets the same kind of answer (a payload
    /// for the feeds marked in `ok`, a failure for the others), a settled pass
    /// that was not cancelled has attempted every feed, ends with exactly the
    /// marked feeds as successes, and counts `count_true(ok)` successes and the
    /// rest as failures.
    pub proof fn lemma_uniform_answers(&self, ok: Seq<bool>)
        requires
            self.wf(),
            self.spec_is_settled(),
            !self.spec_cancelled(),
            ok.len() == self.spec_len(),
            forall|i: int, k: int|
                0 <= i < ok.len() && 0 <= k < self.history(i).len() ==> ((#[trigger] self.history(
                    i,
                )[k]) is Ok <==> ok[i]),
        ensures
            forall|i: int| 0 <= i < ok.len() ==> {
                &&& self.history(i).len() >= 1
                &&& (#[trigger] self.statuses()[i] is Succeeded <==> ok[i])
            },
            succeeded_indices(self.statuses()).len() == count_true(ok),
            failed_indices(self.statuses()).len() == self.spec_len() - count_true(ok),
    {
        let st = self.statuses();
        assert forall|i: int| 0 <= i < ok.len() implies {
            &&& self.history(i).len() >= 1
            &&& (#[trigger] st[i] is Succeeded <==> ok[i])
        } by {
            let h = self.history(i);
            assert(feed_consistent(self.budgets@[i] as nat, self.history@[i], self.status@[i], false));
            assert(!st[i].is_open());
            assert(1 <= self.budgets@[i]);
            if st[i] is Succeeded {
                assert(h[h.len() - 1] is Ok);
            } else {
                assert(h[0] is Err);
            }
        }
        lemma_count_matches(st, ok);
        lemma_partition(st);
    }

    /// A feed whose attempts fail until the last one that its budget allows,
    /// and that one succeeds, ends as a success after exactly its budget of
    /// attempts.
    pub proof fn lemma_success_on_last_attempt(&self, i: int)
        requires
            self.wf(),
            self.spec_is_settled(),
            !self.spec_cancelled(),
            0 <= i < self.spec_len(),
            forall|k: int|
                0 <= k < self.history(i).len() ==> ((#[trigger] self.history(i)[k]) is Ok <==> k
                    >= self.budget(i) - 1),
        ensures
            self.statuses()[i] is Succeeded,
            self.history(i).len() == self.budget(i),
    {
        let h = self.history(i);
        assert(feed_consistent(self.budgets@[i] as nat, self.history@[i], self.status@[i], false));
        assert(!self.statuses()[i].is_open());
        assert(1 <= self.budgets@[i]);
        if self.statuses()[i] is Failed {
            assert(h[h.len() - 1] is Err);
        } else {
            assert(h[h.len() - 1] is Ok);
        }
    }

    /// A feed whose every attempt fails ends as a failure after exactly its
    /// budget of attempts, with the reason of the last one.
    pub proof fn lemma_always_failing(&self, i: int)
        requires
            self.wf(),
            self.spec_is_settled(),
            !self.spec_cancelled(),
            0 <= i < self.spec_len(),
            forall|k: int| 0 <= k < self.history(i).len() ==> (#[trigger] self.history(i)[k]) is Err,
        ensures
            self.statuses()[i] matches FeedStatus::Failed(e) && self.history(i).len() == self.budget(
                i,
            ) && self.history(i).last() == Err::<Seq<u8>, FetcherError>(e),
    {
        let h = self.history(i);
        assert(feed_consistent(self.budgets@[i] as nat, self.history@[i], self.status@[i], false));
        assert(!self.statuses()[i].is_open());
        assert(1 <= self.budgets@[i]);
        if self.statuses()[i] is Succeeded {
            assert(h[h.len() - 1] is Err);
        }
    }
}

} // verus!
