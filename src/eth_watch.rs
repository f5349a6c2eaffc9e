use vstd::prelude::*;

use crate::eth_state::{contiguous_run, insert_ops, unexpired, ETHState};
use crate::params::{PRIORITY_EXPIRATION, RATE_LIMIT_DELAY_SECS};
use crate::types::{PriorityOp, SerialId};

verus! {

/// An inclusive range of block numbers.
#[derive(Debug, Clone, Copy, PartialEq, Eq, Structural)]
pub struct BlockRange {
    pub from: u64,
    pub to: u64,
}

/// What one poll queries once the chain head is known.
#[derive(Debug, Clone, Copy, PartialEq, Eq, Structural)]
pub struct PollPlan {
    /// The chain head that the poll observed.
    pub head: u64,
    /// Blocks whose events are final and get folded into the state; `None`
    /// where no block became final.
    pub accepted: Option<BlockRange>,
    /// Blocks still within reorg risk, reported but never folded in; `None`
    /// where there is none.
    pub unconfirmed: Option<BlockRange>,
}

/// Whether the watcher polls, or waits out a rate limit of the provider.
#[derive(Debug, Clone, Copy, PartialEq, Eq, Structural)]
pub enum WatcherMode {
    Working,
    /// Polling is suspended until this instant, in seconds.
    Backoff(u64),
}

/// `a - b`, or zero where `b > a`.
pub open spec fn sat_sub(a: u64, b: u64) -> u64 {
    if a >= b {
        (a - b) as u64
    } else {
        0
    }
}

/// `a + b`, or `u64::MAX` where the sum does not fit.
pub open spec fn sat_add(a: u64, b: u64) -> u64 {
    if a + b <= u64::MAX {
        (a + b) as u64
    } else {
        u64::MAX
    }
}

/// Whether block `b` lies in `range`.
pub open spec fn in_range(range: Option<BlockRange>, b: int) -> bool {
    match range {
        Some(r) => r.from <= b <= r.to,
        None => false,
    }
}

/// The range `[from, to]`, or `None` where it is empty.
pub open spec fn range_of(from: int, to: u64) -> Option<BlockRange> {
    if from <= to {
        Some(BlockRange { from: from as u64, to })
    } else {
        None
    }
}

/// The blocks that a poll moving from `last` to `head` accepts: those that
/// reached `confirmations` confirmations since the previous poll,
/// `[(last - confirmations) + 1, head - confirmations]`, each difference
/// clamped at zero.
pub open spec fn accepted_range(last: u64, head: u64, confirmations: u64) -> Option<BlockRange> {
    range_of(sat_sub(last, confirmations) + 1, sat_sub(head, confirmations))
}

/// The blocks at head `head` that still lack `confirmations` confirmations:
/// `[(head - confirmations) + 1, head]`.
pub open spec fn unconfirmed_range(head: u64, confirmations: u64) -> Option<BlockRange> {
    range_of(sat_sub(head, confirmations) + 1, head)
}

/// The blocks read at startup with head `head`: every final block whose
/// operations can still be unexpired,
/// `[head - confirmations - PRIORITY_EXPIRATION, head - confirmations]`.
pub open spec fn restore_range(head: u64, confirmations: u64) -> BlockRange {
    BlockRange {
        from: sat_sub(sat_sub(head, confirmations), PRIORITY_EXPIRATION),
        to: sat_sub(head, confirmations),
    }
}

/// Whether `mode` suspends a poll that arrives at instant `now`.
pub open spec fn backoff_active(mode: WatcherMode, now: u64) -> bool {
    match mode {
        WatcherMode::Backoff(until) => now < until,
        WatcherMode::Working => false,
    }
}

/// Whether `needle` occurs in `text` at position `i`.
pub open spec fn occurs_at(text: Seq<char>, needle: Seq<char>, i: int) -> bool {
    0 <= i && i + needle.len() <= text.len() && text.subrange(i, i + needle.len()) == needle
}

/// Whether `needle` occurs anywhere in `text`.
pub open spec fn contains_text(text: Seq<char>, needle: Seq<char>) -> bool {
    exists|i: int| #[trigger] occurs_at(text, needle, i)
}

/// Whether a provider's error text reports a rate limit (HTTP 429).
pub open spec fn is_rate_limit_error(text: Seq<char>) -> bool {
    contains_text(text, "429 Too Many Requests"@)
}

fn saturating_sub(a: u64, b: u64) -> (r: u64)
    ensures
        r == sat_sub(a, b),
{
    if a >= b {
        a - b
    } else {
        0
    }
}

fn make_range(from: u64, to: u64) -> (r: Option<BlockRange>)
    ensures
        r == range_of(from as int, to),
{
    if from <= to {
        Some(BlockRange { from, to })
    } else {
        None
    }
}

/// The characters of `s`.
fn chars_of(s: &str) -> (r: Vec<char>)
    ensures
        r@ == s@,
{
    let n = s.unicode_len();
    let mut r: Vec<char> = Vec::new();
    let mut i: usize = 0;
    while i < n
        invariant
            n == s@.len(),
            i <= n,
            r@ == s@.take(i as int),
        decreases n - i,
    {
        r.push(s.get_char(i));
        i = i + 1;
        assert(r@ =~= s@.take(i as int));
    }
    assert(r@ =~= s@);
    r
}

/// Whether `needle` occurs in `text`.
pub fn contains_str(text: &str, needle: &str) -> (r: bool)
    ensures
        r == contains_text(text@, needle@),
{
    let t = chars_of(text);
    let p = chars_of(needle);
    let mut i: usize = 0;
    while i < t.len() && p.len() <= t.len() - i
        invariant
            t@ == text@,
            p@ == needle@,
            i <= t.len(),
            forall|k: int| 0 <= k < i ==> !#[trigger] occurs_at(t@, p@, k),
        decreases t.len() - i,
    {
        let mut j: usize = 0;
        let mut same = true;
        while j < p.len() && same
            invariant
                i + p.len() <= t.len(),
                j <= p.len(),
                same <==> forall|m: int| 0 <= m < j ==> t@[i + m] == p@[m],
            decreases p.len() - j,
        {
            if t[i + j] != p[j] {
                same = false;
            }
            j = j + 1;
        }
        if same {
            assert(t@.subrange(i as int, i + p.len()) =~= p@);
            assert(occurs_at(t@, p@, i as int));
            return true;
        }
        assert(!occurs_at(t@, p@, i as int)) by {
            if occurs_at(t@, p@, i as int) {
                assert(t@[i + (j - 1)] == t@.subrange(i as int, i + p.len())[j - 1]);
            }
        }
        i = i + 1;
    }
    if p.len() == 0 {
        assert(t@.subrange(i as int, i as int) =~= p@);
        assert(occurs_at(t@, p@, i as int));
        return true;
    }
    assert forall|k: int| !#[trigger] occurs_at(t@, p@, k) by {
        if 0 <= k < i {
        }
    }
    false
}

/// Whether a provider's error text reports a rate limit (HTTP 429); the sole
/// signal that makes the watcher back off.
pub fn is_rate_limit_text(text: &str) -> (r: bool)
    ensures
        r == is_rate_limit_error(text@),
{
    contains_str(text, "429 Too Many Requests")
}

/// The Ethereum watcher: the confirmation state, the confirmation depth and
/// the running mode, around the client it queries.
///
/// The watcher makes the decisions of the poll cycle; whoever owns it runs the
/// queries that each decision asks for and reports back what came of them.
/// Messages are handled one at a time, and the state is only ever replaced as
/// a whole, so a query always sees one complete state.
pub struct EthWatch<C> {
    client: C,
    eth_state: ETHState,
    /// All ethereum events are accepted after sufficient confirmations to eliminate risk of block reorg.
    number_of_confirmations_for_event: u64,
    mode: WatcherMode,
}

impl<C> EthWatch<C> {
    /// The current confirmation state.
    pub closed spec fn state(&self) -> ETHState {
        self.eth_state
    }

    /// The confirmation depth.
    pub closed spec fn confirmations(&self) -> u64 {
        self.number_of_confirmations_for_event
    }

    /// The running mode.
    pub closed spec fn spec_mode(&self) -> WatcherMode {
        self.mode
    }

    /// The client the watcher queries.
    pub closed spec fn spec_client(&self) -> C {
        self.client
    }

    pub fn new(client: C, number_of_confirmations_for_event: u64) -> (r: Self)
        ensures
            r.state().last_block() == 0,
            r.state().queue() == Map::<SerialId, PriorityOp>::empty(),
            r.confirmations() == number_of_confirmations_for_event,
            r.spec_mode() == WatcherMode::Working,
            r.spec_client() == client,
    {
        Self { client, eth_state: ETHState::default(), number_of_confirmations_for_event, mode: WatcherMode::Working }
    }

    pub fn client(&self) -> (r: &C)
        ensures
            *r == self.spec_client(),
    {
        &self.client
    }

    pub fn eth_state(&self) -> (r: &ETHState)
        ensures
            *r == self.state(),
    {
        &self.eth_state
    }

    pub fn mode(&self) -> (r: WatcherMode)
        ensures
            r == self.spec_mode(),
    {
        self.mode
    }

    pub fn number_of_confirmations_for_event(&self) -> (r: u64)
        ensures
            r == self.confirmations(),
    {
        self.number_of_confirmations_for_event
    }

    /// Handles a `PollETHNode` message that arrives at instant `now`, in
    /// seconds. Returns whether the poll goes on to query the chain: not
    /// while a backoff is running, in which case nothing changes. Once the
    /// backoff is over the watcher is working again.
    pub fn start_poll(&mut self, now: u64) -> (r: bool)
        ensures
            r == !backoff_active(old(self).spec_mode(), now),
            !r ==> *final(self) == *old(self),
            r ==> final(self).spec_mode() == WatcherMode::Working,
            final(self).state() == old(self).state(),
            final(self).confirmations() == old(self).confirmations(),
            final(self).spec_client() == old(self).spec_client(),
    {
        match self.mode {
            WatcherMode::Backoff(until) => {
                if now < until {
                    false
                } else {
                    self.mode = WatcherMode::Working;
                    true
                }
            },
            WatcherMode::Working => true,
        }
    }

    /// What a poll that observed chain head `head` queries: nothing where the
    /// chain did not advance past the last known block. Otherwise the
    /// accepted range starts right after the blocks that the previous poll
    /// accepted, however many polls were missed in between.
    pub fn plan_poll(&self, head: u64) -> (r: Option<PollPlan>)
        ensures
            head <= self.state().last_block() ==> r is None,
            head > self.state().last_block() ==> r == Some(
                PollPlan {
                    head,
                    accepted: accepted_range(self.state().last_block(), head, self.confirmations()),
                    unconfirmed: unconfirmed_range(head, self.confirmations()),
                },
            ),
    {
        let last = self.eth_state.last_ethereum_block();
        if head <= last {
            return None;
        }
        let confirmations = self.number_of_confirmations_for_event;
        let new_accepted = saturating_sub(head, confirmations);
        let block_difference = head - last;
        let previous_accepted = saturating_sub(new_accepted, block_difference);
        assert(previous_accepted == sat_sub(last, confirmations));
        let accepted = make_range(previous_accepted + 1, new_accepted);
        let unconfirmed = if new_accepted < head {
            Some(BlockRange { from: new_accepted + 1, to: head })
        } else {
            None
        };
        Some(PollPlan { head, accepted, unconfirmed })
    }

    /// Folds in a poll that observed head `head` and read `accepted_ops` from
    /// its accepted range: the whole state is replaced by one with last block
    /// `head`, whose queue drops what expired at `head` and then takes the new
    /// operations. A head that does not advance changes nothing.
    pub fn complete_poll(&mut self, head: u64, accepted_ops: &Vec<PriorityOp>)
        ensures
            head > old(self).state().last_block() ==> final(self).state().last_block() == head
                && final(self).state().queue() == insert_ops(unexpired(old(self).state().queue(), head), accepted_ops@),
            head <= old(self).state().last_block() ==> final(self).state() == old(self).state(),
            final(self).spec_mode() == old(self).spec_mode(),
            final(self).confirmations() == old(self).confirmations(),
            final(self).spec_client() == old(self).spec_client(),
    {
        if head > self.eth_state.last_ethereum_block() {
            self.eth_state = self.eth_state.after_poll(head, accepted_ops);
        }
    }

    /// Records that a query of the poll under way failed at instant `now` with
    /// error text `error`. The poll is abandoned and the state stays as it
    /// was; a rate limit starts a backoff of `RATE_LIMIT_DELAY_SECS` seconds,
    /// any other error leaves the mode alone.
    pub fn poll_failed(&mut self, error: &str, now: u64)
        ensures
            is_rate_limit_error(error@) ==> final(self).spec_mode() == WatcherMode::Backoff(
                sat_add(now, RATE_LIMIT_DELAY_SECS),
            ),
            !is_rate_limit_error(error@) ==> final(self).spec_mode() == old(self).spec_mode(),
            final(self).state() == old(self).state(),
            final(self).confirmations() == old(self).confirmations(),
            final(self).spec_client() == old(self).spec_client(),
    {
        if is_rate_limit_text(error) {
            let until = if now <= u64::MAX - RATE_LIMIT_DELAY_SECS {
                now + RATE_LIMIT_DELAY_SECS
            } else {
                u64::MAX
            };
            self.mode = WatcherMode::Backoff(until);
        }
    }

    /// What the startup reconciliation with chain head `head` queries: every
    /// final block whose operations may not have expired, and the blocks that
    /// are not final yet.
    pub fn restore_plan(&self, head: u64) -> (r: PollPlan)
        ensures
            r == (PollPlan {
                head,
                accepted: Some(restore_range(head, self.confirmations())),
                unconfirmed: unconfirmed_range(head, self.confirmations()),
            }),
    {
        let confirmations = self.number_of_confirmations_for_event;
        let new_accepted = saturating_sub(head, confirmations);
        let from = saturating_sub(new_accepted, PRIORITY_EXPIRATION);
        let unconfirmed = if new_accepted < head {
            Some(BlockRange { from: new_accepted + 1, to: head })
        } else {
            None
        };
        PollPlan { head, accepted: Some(BlockRange { from, to: new_accepted }), unconfirmed }
    }

    /// Replaces the state by the one rebuilt at startup: last block `head`,
    /// and the operations of the restore window that are not expired at `head`.
    pub fn restore_state(&mut self, head: u64, accepted_ops: &Vec<PriorityOp>)
        ensures
            final(self).state().last_block() == head,
            final(self).state().queue() == unexpired(insert_ops(Map::empty(), accepted_ops@), head),
            final(self).spec_mode() == old(self).spec_mode(),
            final(self).confirmations() == old(self).confirmations(),
            final(self).spec_client() == old(self).spec_client(),
    {
        self.eth_state = ETHState::restored(head, accepted_ops);
    }

    /// Answers `GetPriorityQueueOps`: the operations of the current state with
    /// consecutive serial ids from `op_start_id` on, as many as fit in
    /// `max_chunks` chunks.
    pub fn get_priority_queue_ops(&self, op_start_id: SerialId, max_chunks: usize) -> (r: Vec<PriorityOp>)
        ensures
            r@ == contiguous_run(self.state().queue(), op_start_id as int, max_chunks as int),
    {
        self.eth_state.priority_queue_ops(op_start_id, max_chunks)
    }
}

/// The last block known after the first `n` polls of a run that started at
/// `last` and observed the heads `heads`; a head that is not above the last
/// block changes nothing.
pub open spec fn last_after(last: u64, heads: Seq<u64>, n: int) -> u64
    decreases n,
{
    if n <= 0 {
        last
    } else {
        let prev = last_after(last, heads, n - 1);
        if heads[n - 1] > prev {
            heads[n - 1]
        } else {
            prev
        }
    }
}

/// The range that poll `i` of such a run accepts.
pub open spec fn accepted_at(last: u64, heads: Seq<u64>, confirmations: u64, i: int) -> Option<BlockRange> {
    let prev = last_after(last, heads, i);
    if heads[i] > prev {
        accepted_range(prev, heads[i], confirmations)
    } else {
        None
    }
}

/// Whether one of the first `n` polls of such a run accepts block `b`.
pub open spec fn accepted_before(last: u64, heads: Seq<u64>, confirmations: u64, n: int, b: int) -> bool {
    exists|i: int| 0 <= i < n && #[trigger] in_range(accepted_at(last, heads, confirmations, i), b)
}

proof fn lemma_last_after_monotone(last: u64, heads: Seq<u64>, i: int, j: int)
    requires
        0 <= i <= j <= heads.len(),
    ensures
        last_after(last, heads, i) <= last_after(last, heads, j),
    decreases j - i,
{
    if i < j {
        lemma_last_after_monotone(last, heads, i, j - 1);
    }
}

proof fn lemma_accepted_at_exact(last: u64, heads: Seq<u64>, confirmations: u64, i: int)
    requires
        0 <= i < heads.len(),
    ensures
        forall|b: int|
            #[trigger] in_range(accepted_at(last, heads, confirmations, i), b) <==> sat_sub(
                last_after(last, heads, i),
                confirmations,
            ) < b <= sat_sub(last_after(last, heads, i + 1), confirmations),
{
}

proof fn lemma_accepted_cover_prefix(last: u64, heads: Seq<u64>, confirmations: u64, n: int)
    requires
        0 <= n <= heads.len(),
    ensures
        forall|b: int|
            #[trigger] accepted_before(last, heads, confirmations, n, b)
                <==> sat_sub(last, confirmations) < b <= sat_sub(last_after(last, heads, n), confirmations),
    decreases n,
{
    if n > 0 {
        lemma_accepted_cover_prefix(last, heads, confirmations, n - 1);
        lemma_accepted_at_exact(last, heads, confirmations, n - 1);
        lemma_last_after_monotone(last, heads, 0, n - 1);
        assert forall|b: int|
            #[trigger] accepted_before(last, heads, confirmations, n, b)
                <==> sat_sub(last, confirmations) < b <= sat_sub(last_after(last, heads, n), confirmations) by {
            if sat_sub(last, confirmations) < b <= sat_sub(last_after(last, heads, n), confirmations) {
                if b > sat_sub(last_after(last, heads, n - 1), confirmations) {
                    assert(in_range(accepted_at(last, heads, confirmations, n - 1), b));
                } else {
                    assert(accepted_before(last, heads, confirmations, n - 1, b));
                }
            }
            if accepted_before(last, heads, confirmations, n, b) {
                let i = choose|i: int| 0 <= i < n && #[trigger] in_range(accepted_at(last, heads, confirmations, i), b);
                if i < n - 1 {
                    assert(accepted_before(last, heads, confirmations, n - 1, b));
                }
            }
        }
    }
}

/// No block is skipped or accepted twice: over any run of polls, whatever the
/// heads they observe and however irregularly they come, the accepted ranges
/// cover each block from the one after `last - confirmations` up to
/// `final_head - confirmations` (differences clamped at zero), and no block
/// lies in the ranges of two polls.
pub proof fn lemma_no_block_skipped(last: u64, heads: Seq<u64>, confirmations: u64)
    ensures
        forall|b: int|
            #[trigger] accepted_before(last, heads, confirmations, heads.len() as int, b)
                <==> sat_sub(last, confirmations) < b <= sat_sub(
                last_after(last, heads, heads.len() as int),
                confirmations,
            ),
        forall|i: int, j: int, b: int|
            0 <= i < j < heads.len() && #[trigger] in_range(accepted_at(last, heads, confirmations, i), b)
                ==> !#[trigger] in_range(accepted_at(last, heads, confirmations, j), b),
{
    lemma_accepted_cover_prefix(last, heads, confirmations, heads.len() as int);
    assert forall|i: int, j: int, b: int|
        0 <= i < j < heads.len() && #[trigger] in_range(accepted_at(last, heads, confirmations, i), b)
            implies !#[trigger] in_range(accepted_at(last, heads, confirmations, j), b) by {
        lemma_accepted_at_exact(last, heads, confirmations, i);
        lemma_accepted_at_exact(last, heads, confirmations, j);
        lemma_last_after_monotone(last, heads, i + 1, j);
    }
}

} // verus!
