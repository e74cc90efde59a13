use crate::merger::is_present;
use crate::number::{decimal_digits, push_decimal};
use crate::text::{push_str, string_from_chars};
use vstd::prelude::*;

verus! {

/// The wait after the first failed attempt, in milliseconds.
pub const BACKOFF_BASE_MS: u64 = 1000;

/// One try to fetch a segment and to store it, as it ended.
#[derive(Debug, Clone, Copy)]
pub struct Attempt {
    /// The status of the response; none where the transport failed or timed
    /// out.
    pub status: Option<u16>,
    /// How many bytes the body of the response had.
    pub body_len: usize,
    /// Whether the body was written to the cache.
    pub stored: bool,
}

/// Whether a status code of HTTP reports success.
pub open spec fn is_success_status(status: u16) -> bool {
    200 <= status < 300
}

/// Whether a response holds a segment: it reports success and its body is not
/// empty.
pub open spec fn is_usable_response(status: Option<u16>, body_len: usize) -> bool {
    status matches Some(s) && is_success_status(s) && body_len > 0
}

/// Whether an attempt got the segment into the cache.
pub open spec fn attempt_succeeded(a: Attempt) -> bool {
    is_usable_response(a.status, a.body_len) && a.stored
}

/// Where the fetch of one segment stands.
#[derive(Debug, Clone, Copy, PartialEq, Eq, Structural)]
pub enum SegmentState {
    /// Nothing was tried yet.
    Pending,
    /// The attempt with this number, counted from 1, is under way.
    Attempting(usize),
    /// The segment is in the cache.
    Succeeded,
    /// Every attempt that was allowed has failed.
    Failed,
}

/// What the worker of a segment is to do next.
#[derive(Debug, Clone, Copy, PartialEq, Eq, Structural)]
pub enum NextStep {
    /// Fetch the segment now.
    Fetch,
    /// Wait this many milliseconds, then fetch the segment.
    WaitThenFetch(u64),
    /// Nothing more: the state is final.
    Finished,
}

/// The state in which the work on a segment begins: the first attempt, or
/// failure at once where no attempt is allowed.
pub open spec fn first_state(max_retries: usize) -> SegmentState {
    if max_retries == 0 {
        SegmentState::Failed
    } else {
        SegmentState::Attempting(1)
    }
}

/// The state after an attempt has ended. A success ends the work; a failure
/// leads to the next attempt as long as one is allowed, and to failure then.
/// In any other state an attempt changes nothing.
pub open spec fn state_after(state: SegmentState, a: Attempt, max_retries: usize) -> SegmentState {
    match state {
        SegmentState::Attempting(n) => if attempt_succeeded(a) {
            SegmentState::Succeeded
        } else if n < max_retries {
            SegmentState::Attempting((n + 1) as usize)
        } else {
            SegmentState::Failed
        },
        other => other,
    }
}

/// How long to wait after the failed attempt number `attempt`, in
/// milliseconds: the base times the number, but at most `u64::MAX`.
pub open spec fn backoff(base: u64, attempt: usize) -> u64 {
    if base * attempt <= u64::MAX {
        (base * attempt) as u64
    } else {
        u64::MAX
    }
}

/// What is to be done in a state that was reached by a failed attempt or at
/// the beginning.
pub open spec fn step_for(state: SegmentState, base: u64) -> NextStep {
    match state {
        SegmentState::Attempting(n) => if n <= 1 {
            NextStep::Fetch
        } else {
            NextStep::WaitThenFetch(backoff(base, (n - 1) as usize))
        },
        _ => NextStep::Finished,
    }
}

/// The state after the given attempts have ended one after the other.
pub open spec fn state_after_all(state: SegmentState, attempts: Seq<Attempt>, max_retries: usize) -> SegmentState
    decreases attempts.len(),
{
    if attempts.len() == 0 {
        state
    } else {
        state_after(
            state_after_all(state, attempts.drop_last(), max_retries),
            attempts.last(),
            max_retries,
        )
    }
}

/// While every attempt fails, the work on a segment is at the attempt after
/// the last one, or has failed where that would be one too many: it has never
/// succeeded.
pub proof fn lemma_failures_never_succeed(attempts: Seq<Attempt>, max_retries: usize)
    requires
        forall|k: int| 0 <= k < attempts.len() ==> !attempt_succeeded(#[trigger] attempts[k]),
    ensures
        state_after_all(first_state(max_retries), attempts, max_retries) == if attempts.len()
            < max_retries {
            SegmentState::Attempting((attempts.len() + 1) as usize)
        } else {
            SegmentState::Failed
        },
    decreases attempts.len(),
{
    if attempts.len() > 0 {
        let before = attempts.drop_last();
        assert forall|k: int| 0 <= k < before.len() implies !attempt_succeeded(
            #[trigger] before[k],
        ) by {
            assert(before[k] == attempts[k]);
        }
        lemma_failures_never_succeed(before, max_retries);
        assert(!attempt_succeeded(attempts[attempts.len() - 1]));
    }
}

/// A segment whose every attempt fails, and which is tried as often as is
/// allowed, ends as failed.
pub proof fn lemma_exhausted_retries_fail(attempts: Seq<Attempt>, max_retries: usize)
    requires
        attempts.len() >= max_retries,
        forall|k: int| 0 <= k < attempts.len() ==> !attempt_succeeded(#[trigger] attempts[k]),
    ensures
        state_after_all(first_state(max_retries), attempts, max_retries) == SegmentState::Failed,
{
    lemma_failures_never_succeed(attempts, max_retries);
}

/// A segment succeeds only through an attempt that put it into the cache,
/// and no attempt is numbered beyond the limit.
pub proof fn lemma_success_is_stored(attempts: Seq<Attempt>, max_retries: usize)
    ensures
        state_after_all(first_state(max_retries), attempts, max_retries) == SegmentState::Succeeded
            ==> exists|k: int|
            0 <= k < attempts.len() && attempt_succeeded(#[trigger] attempts[k]),
        state_after_all(first_state(max_retries), attempts, max_retries) matches SegmentState::Attempting(
            n,
        ) ==> 1 <= n <= max_retries,
        state_after_all(first_state(max_retries), attempts, max_retries) != SegmentState::Pending,
    decreases attempts.len(),
{
    if attempts.len() > 0 {
        let before = attempts.drop_last();
        lemma_success_is_stored(before, max_retries);
        let prev = state_after_all(first_state(max_retries), before, max_retries);
        if prev == SegmentState::Succeeded {
            let k = choose|k: int| 0 <= k < before.len() && attempt_succeeded(#[trigger] before[k]);
            assert(attempts[k] == before[k]);
        } else if state_after_all(first_state(max_retries), attempts, max_retries)
            == SegmentState::Succeeded {
            assert(attempt_succeeded(attempts[attempts.len() - 1]));
        }
    }
}

impl SegmentState {
    /// Begins the work on a segment.
    pub fn start(max_retries: usize, backoff_base: u64) -> (r: (SegmentState, NextStep))
        ensures
            r.0 == first_state(max_retries),
            r.1 == step_for(r.0, backoff_base),
    {
        if max_retries == 0 {
            (SegmentState::Failed, NextStep::Finished)
        } else {
            (SegmentState::Attempting(1), NextStep::Fetch)
        }
    }

    /// Takes in how an attempt ended and tells what to do next. After a
    /// failure that leaves another attempt, the wait grows with the number
    /// of the failed attempt.
    pub fn advance(self, attempt: &Attempt, max_retries: usize, backoff_base: u64) -> (r: (
        SegmentState,
        NextStep,
    ))
        ensures
            r.0 == state_after(self, *attempt, max_retries),
            r.1 == match (self, r.0) {
                (SegmentState::Attempting(n), SegmentState::Attempting(_)) => NextStep::WaitThenFetch(
                    backoff(backoff_base, n),
                ),
                _ => NextStep::Finished,
            },
    {
        match self {
            SegmentState::Attempting(n) => {
                if is_usable(attempt.status, attempt.body_len) && attempt.stored {
                    (SegmentState::Succeeded, NextStep::Finished)
                } else if n < max_retries {
                    let wait = match backoff_base.checked_mul(n as u64) {
                        Some(w) => w,
                        None => 0xFFFF_FFFF_FFFF_FFFF,
                    };
                    (SegmentState::Attempting(n + 1), NextStep::WaitThenFetch(wait))
                } else {
                    (SegmentState::Failed, NextStep::Finished)
                }
            },
            other => (other, NextStep::Finished),
        }
    }

    /// Whether the work on the segment has ended.
    pub fn is_terminal(&self) -> (b: bool)
        ensures
            b == (*self == SegmentState::Succeeded || *self == SegmentState::Failed),
    {
        match self {
            SegmentState::Succeeded => true,
            SegmentState::Failed => true,
            _ => false,
        }
    }
}

/// Tells whether a response holds a segment, and so is to be stored.
pub fn is_usable(status: Option<u16>, body_len: usize) -> (b: bool)
    ensures
        b == is_usable_response(status, body_len),
{
    match status {
        Some(s) => 200 <= s && s < 300 && body_len > 0,
        None => false,
    }
}

/// The places, among the first `n` segments, of those that are not in the
/// cache and so must be fetched, in order.
pub open spec fn needed_indices(cached: Seq<bool>, n: int) -> Seq<usize>
    decreases n,
{
    if n <= 0 {
        Seq::empty()
    } else if is_present(cached, n - 1) {
        needed_indices(cached, n - 1)
    } else {
        needed_indices(cached, n - 1).push((n - 1) as usize)
    }
}

/// The segments to fetch are exactly those that are not in the cache.
pub proof fn lemma_needed_are_uncached(cached: Seq<bool>, n: int, place: usize)
    requires
        0 <= n <= usize::MAX,
    ensures
        needed_indices(cached, n).contains(place) <==> place < n && !is_present(
            cached,
            place as int,
        ),
    decreases n,
{
    if n > 0 {
        lemma_needed_are_uncached(cached, n - 1, place);
        let before = needed_indices(cached, n - 1);
        if !is_present(cached, n - 1) {
            let now = before.push((n - 1) as usize);
            if before.contains(place) {
                let k = choose|k: int| 0 <= k < before.len() && before[k] == place;
                assert(now[k] == place);
            }
            if place == n - 1 {
                assert(now[before.len() as int] == place);
            }
            if now.contains(place) {
                let k = choose|k: int| 0 <= k < now.len() && now[k] == place;
                if k < before.len() {
                    assert(before[k] == place);
                }
            }
        }
    }
}

/// Running again fetches nothing that is in the cache: where the cache of a
/// second run holds every segment that the first run found in its cache or
/// fetched with success, the second run fetches none of these; and where the
/// first run failed for none, the second run fetches nothing at all.
pub proof fn lemma_second_run_resumes(
    cached_first: Seq<bool>,
    succeeded_first: Seq<bool>,
    cached_second: Seq<bool>,
    n: int,
)
    requires
        0 <= n <= usize::MAX,
        forall|i: int|
            0 <= i < n && (is_present(cached_first, i) || is_present(succeeded_first, i))
                ==> is_present(cached_second, i),
    ensures
        forall|place: usize|
            place < n && (is_present(cached_first, place as int) || is_present(
                succeeded_first,
                place as int,
            )) ==> !(#[trigger] needed_indices(cached_second, n).contains(place)),
        (forall|i: int|
            0 <= i < n && !is_present(cached_first, i) ==> is_present(succeeded_first, i))
            ==> needed_indices(cached_second, n).len() == 0,
{
    assert forall|place: usize|
        place < n && (is_present(cached_first, place as int) || is_present(
            succeeded_first,
            place as int,
        )) implies !(#[trigger] needed_indices(cached_second, n).contains(place)) by {
        lemma_needed_are_uncached(cached_second, n, place);
    }
    if forall|i: int| 0 <= i < n && !is_present(cached_first, i) ==> is_present(succeeded_first, i) {
        let needed = needed_indices(cached_second, n);
        if needed.len() > 0 {
            let place = needed[0];
            assert(needed.contains(place));
            lemma_needed_are_uncached(cached_second, n, place);
        }
    }
}

/// What a run of the scheduler has done.
#[derive(Debug, Clone, Copy, PartialEq, Eq, Structural)]
pub struct DownloadOutcome {
    /// How many segments were filtered out as advertisements.
    pub ads: usize,
    /// How many segments were not in the cache and had to be fetched.
    pub needed: usize,
    /// How many of them were fetched and stored.
    pub downloaded: usize,
    /// How many of them failed for good.
    pub failed: usize,
}

/// The report of a run over `total` segments.
pub open spec fn report_text(outcome: DownloadOutcome, total: usize) -> Seq<char> {
    "片段总数: "@ + decimal_digits(total as nat) + ", 广告: "@ + decimal_digits(outcome.ads as nat)
        + ", 缓存命中: "@ + decimal_digits(
        if total >= outcome.needed {
            (total - outcome.needed) as nat
        } else {
            0
        },
    ) + ", 新下载: "@ + decimal_digits(outcome.downloaded as nat) + ", 失败: "@ + decimal_digits(
        outcome.failed as nat,
    )
}

impl DownloadOutcome {
    /// Whether no segment failed.
    pub fn is_complete(&self) -> (b: bool)
        ensures
            b == (self.failed == 0),
    {
        self.failed == 0
    }

    /// Words the report of the run over `total` segments: their number, and
    /// how many of them were advertisements, came from the cache, were newly
    /// fetched, and failed.
    pub fn report(&self, total: usize) -> (s: String)
        ensures
            s@ == report_text(*self, total),
    {
        let hits: usize = if total >= self.needed {
            total - self.needed
        } else {
            0
        };
        let mut text: Vec<char> = Vec::new();
        push_str(&mut text, "片段总数: ");
        push_decimal(&mut text, total as u64);
        push_str(&mut text, ", 广告: ");
        push_decimal(&mut text, self.ads as u64);
        push_str(&mut text, ", 缓存命中: ");
        push_decimal(&mut text, hits as u64);
        push_str(&mut text, ", 新下载: ");
        push_decimal(&mut text, self.downloaded as u64);
        push_str(&mut text, ", 失败: ");
        push_decimal(&mut text, self.failed as u64);
        assert(text@ =~= report_text(*self, total));
        string_from_chars(text.as_slice())
    }
}

/// Hands out the segments that must be fetched, never more at a time than
/// the limit allows, and counts how they end.
#[derive(Debug)]
pub struct Scheduler {
    queue: Vec<usize>,
    next: usize,
    in_flight: usize,
    limit: usize,
    ads: usize,
    downloaded: usize,
    failed: usize,
}

impl Scheduler {
    #[verifier::type_invariant]
    spec fn well_formed(self) -> bool {
        &&& self.limit >= 1
        &&& self.in_flight <= self.limit
        &&& self.next <= self.queue@.len()
        &&& self.downloaded + self.failed + self.in_flight == self.next
    }

    /// The places of the segments to fetch, in the order in which they are
    /// handed out.
    pub closed spec fn queue(&self) -> Seq<usize> {
        self.queue@
    }

    /// How many segments have been handed out.
    pub closed spec fn started(&self) -> nat {
        self.next as nat
    }

    /// How many segments are being fetched.
    pub closed spec fn in_flight(&self) -> nat {
        self.in_flight as nat
    }

    /// How many segments may be fetched at the same time.
    pub closed spec fn limit(&self) -> nat {
        self.limit as nat
    }

    /// What the run has done so far.
    pub closed spec fn tally(&self) -> DownloadOutcome {
        DownloadOutcome {
            ads: self.ads,
            needed: self.queue@.len() as usize,
            downloaded: self.downloaded,
            failed: self.failed,
        }
    }

    /// Whether every segment to fetch has been handed out and has ended.
    pub open spec fn done(&self) -> bool {
        self.started() == self.queue().len() && self.in_flight() == 0
    }

    /// Plans a run over `total` segments. `cached` says of each, by its
    /// place, whether it is in the cache; the others are queued. At most
    /// `limit` segments are fetched at the same time, and at least one.
    pub fn new(total: usize, cached: &Vec<bool>, ads: usize, limit: usize) -> (s: Self)
        ensures
            s.queue() == needed_indices(cached@, total as int),
            s.started() == 0,
            s.in_flight() == 0,
            s.limit() == if limit == 0 {
                1
            } else {
                limit as nat
            },
            s.tally() == (DownloadOutcome {
                ads,
                needed: s.queue().len() as usize,
                downloaded: 0,
                failed: 0,
            }),
    {
        let mut queue: Vec<usize> = Vec::new();
        let mut i: usize = 0;
        while i < total
            invariant
                i <= total,
                queue@ == needed_indices(cached@, i as int),
            decreases total - i,
        {
            let here = i < cached.len() && cached[i];
            if !here {
                queue.push(i);
            }
            i += 1;
        }
        Self {
            queue,
            next: 0,
            in_flight: 0,
            limit: if limit == 0 {
                1
            } else {
                limit
            },
            ads,
            downloaded: 0,
            failed: 0,
        }
    }

    /// Hands out the next segment to fetch, where one is queued and the limit
    /// allows another fetch; else nothing changes.
    pub fn start_next(&mut self) -> (r: Option<usize>)
        ensures
            final(self).queue() == old(self).queue(),
            final(self).limit() == old(self).limit(),
            final(self).tally() == old(self).tally(),
            final(self).in_flight() <= final(self).limit(),
            match r {
                Some(place) => {
                    &&& old(self).started() < old(self).queue().len()
                    &&& old(self).in_flight() < old(self).limit()
                    &&& place == old(self).queue()[old(self).started() as int]
                    &&& final(self).started() == old(self).started() + 1
                    &&& final(self).in_flight() == old(self).in_flight() + 1
                },
                None => {
                    &&& old(self).started() == old(self).queue().len() || old(self).in_flight()
                        == old(self).limit()
                    &&& final(self).started() == old(self).started()
                    &&& final(self).in_flight() == old(self).in_flight()
                },
            },
    {
        proof {
            use_type_invariant(&*self);
        }
        if self.next < self.queue.len() && self.in_flight < self.limit {
            let place = self.queue[self.next];
            let mut taken = Self::idle();
            core::mem::swap(self, &mut taken);
            let Self { queue, next, in_flight, limit, ads, downloaded, failed } = taken;
            *self = Self { queue, next: next + 1, in_flight: in_flight + 1, limit, ads, downloaded, failed };
            Some(place)
        } else {
            None
        }
    }

    /// Takes in the state in which the work on a segment has ended, and
    /// tells whether it was counted: a segment that succeeded counts as
    /// downloaded, one that failed as failed. Nothing is counted, and nothing
    /// changes, where no fetch was under way or the state is not final.
    pub fn finish(&mut self, state: SegmentState) -> (counted: bool)
        ensures
            final(self).queue() == old(self).queue(),
            final(self).limit() == old(self).limit(),
            final(self).started() == old(self).started(),
            counted == (old(self).in_flight() > 0 && (state == SegmentState::Succeeded || state
                == SegmentState::Failed)),
            counted ==> final(self).in_flight() == old(self).in_flight() - 1 && final(self).tally()
                == (DownloadOutcome {
                downloaded: if state == SegmentState::Succeeded {
                    (old(self).tally().downloaded + 1) as usize
                } else {
                    old(self).tally().downloaded
                },
                failed: if state == SegmentState::Failed {
                    (old(self).tally().failed + 1) as usize
                } else {
                    old(self).tally().failed
                },
                ..old(self).tally()
            }),
            !counted ==> final(self).in_flight() == old(self).in_flight() && final(self).tally()
                == old(self).tally(),
    {
        proof {
            use_type_invariant(&*self);
        }
        if self.in_flight == 0 || !state.is_terminal() {
            return false;
        }
        let mut taken = Self::idle();
        core::mem::swap(self, &mut taken);
        let Self { queue, next, in_flight, limit, ads, downloaded, failed } = taken;
        match state {
            SegmentState::Succeeded => {
                *self = Self { queue, next, in_flight: in_flight - 1, limit, ads, downloaded: downloaded + 1, failed };
            },
            _ => {
                *self = Self { queue, next, in_flight: in_flight - 1, limit, ads, downloaded, failed: failed + 1 };
            },
        }
        true
    }

    /// Tells whether the run is over. It then accounts for every segment
    /// that had to be fetched: each was either fetched or has failed.
    pub fn is_done(&self) -> (b: bool)
        ensures
            b == self.done(),
            b ==> self.tally().downloaded + self.tally().failed == self.tally().needed,
    {
        proof {
            use_type_invariant(self);
        }
        self.next == self.queue.len() && self.in_flight == 0
    }

    /// What the run has done so far. No segment is counted twice, and none
    /// that was not handed out.
    pub fn outcome(&self) -> (o: DownloadOutcome)
        ensures
            o == self.tally(),
            o.downloaded + o.failed + self.in_flight() == self.started(),
            self.started() <= o.needed,
    {
        proof {
            use_type_invariant(self);
        }
        DownloadOutcome {
            ads: self.ads,
            needed: self.queue.len(),
            downloaded: self.downloaded,
            failed: self.failed,
        }
    }

    /// A scheduler with nothing to do.
    fn idle() -> (s: Self)
        ensures
            s.queue().len() == 0,
    {
        Self { queue: Vec::new(), next: 0, in_flight: 0, limit: 1, ads: 0, downloaded: 0, failed: 0 }
    }
}

} // verus!
