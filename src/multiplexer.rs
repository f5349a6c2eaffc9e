use vstd::prelude::*;

verus! {

/// Where a delegated call stands as it goes over the providers in order.
#[derive(Debug, Clone, Copy, PartialEq, Eq, Structural)]
pub enum FailoverStep {
    /// Ask the provider at this index next.
    Call(usize),
    /// The provider at this index answered; its result is the call's result.
    Succeeded(usize),
    /// Every provider failed; the call fails with an aggregate error.
    AllFailed,
}

/// The first step of a call over `n` providers.
pub open spec fn failover_start(n: nat) -> FailoverStep {
    if n > 0 {
        FailoverStep::Call(0)
    } else {
        FailoverStep::AllFailed
    }
}

/// The step after provider `index` of `n` answered, successfully or not.
pub open spec fn failover_next(n: nat, index: int, succeeded: bool) -> FailoverStep {
    if succeeded {
        FailoverStep::Succeeded(index as usize)
    } else if index + 1 < n {
        FailoverStep::Call((index + 1) as usize)
    } else {
        FailoverStep::AllFailed
    }
}

/// How a call ends that reaches provider `index`, where provider `i` would
/// succeed exactly when `succeeds[i]` holds.
pub open spec fn failover_from(succeeds: Seq<bool>, index: int) -> FailoverStep
    decreases succeeds.len() - index,
{
    if index < 0 || index >= succeeds.len() || succeeds.len() > usize::MAX {
        FailoverStep::AllFailed
    } else {
        match failover_next(succeeds.len(), index, succeeds[index]) {
            FailoverStep::Call(next) => failover_from(succeeds, next as int),
            step => step,
        }
    }
}

/// How a call over providers with outcomes `succeeds` ends.
pub open spec fn failover_outcome(succeeds: Seq<bool>) -> FailoverStep {
    match failover_start(succeeds.len()) {
        FailoverStep::Call(first) => failover_from(succeeds, first as int),
        step => step,
    }
}

/// Whether a call that reaches provider `index` goes on to ask provider `p`.
pub open spec fn failover_calls(succeeds: Seq<bool>, index: int, p: int) -> bool
    decreases succeeds.len() - index,
{
    if index < 0 || index >= succeeds.len() || succeeds.len() > usize::MAX {
        false
    } else if p == index {
        true
    } else {
        match failover_next(succeeds.len(), index, succeeds[index]) {
            FailoverStep::Call(next) => failover_calls(succeeds, next as int, p),
            _ => false,
        }
    }
}

proof fn lemma_failover_from(succeeds: Seq<bool>, index: int, k: int)
    requires
        0 <= index <= k <= succeeds.len() <= usize::MAX,
        forall|j: int| index <= j < k ==> !succeeds[j],
        k < succeeds.len() ==> succeeds[k],
    ensures
        k < succeeds.len() ==> failover_from(succeeds, index) == FailoverStep::Succeeded(k as usize),
        k == succeeds.len() ==> failover_from(succeeds, index) == FailoverStep::AllFailed,
        forall|p: int| index <= p <= k && p < succeeds.len() ==> #[trigger] failover_calls(succeeds, index, p),
        forall|p: int| k < p ==> !#[trigger] failover_calls(succeeds, index, p),
    decreases k - index,
{
    if index < k {
        lemma_failover_from(succeeds, index + 1, k);
        assert forall|p: int| index <= p <= k && p < succeeds.len() implies #[trigger] failover_calls(succeeds, index, p) by {
            if p > index {
                assert(failover_calls(succeeds, index + 1, p));
            }
        }
        assert forall|p: int| k < p implies !#[trigger] failover_calls(succeeds, index, p) by {
            assert(!failover_calls(succeeds, index + 1, p));
        }
    }
}

/// Providers are asked strictly in order: when the providers before `k` fail
/// and provider `k` succeeds, the call returns provider `k`'s result, every
/// provider up to `k` was asked and none after it.
pub proof fn lemma_failover_first_success(succeeds: Seq<bool>, k: int)
    requires
        0 <= k < succeeds.len() <= usize::MAX,
        succeeds[k],
        forall|j: int| 0 <= j < k ==> !succeeds[j],
    ensures
        failover_outcome(succeeds) == FailoverStep::Succeeded(k as usize),
        forall|p: int| 0 <= p <= k ==> #[trigger] failover_calls(succeeds, 0, p),
        forall|p: int| k < p ==> !#[trigger] failover_calls(succeeds, 0, p),
{
    lemma_failover_from(succeeds, 0, k);
}

/// When every provider fails, each of them was asked once in order, and the
/// call fails as a whole.
pub proof fn lemma_failover_all_failed(succeeds: Seq<bool>)
    requires
        succeeds.len() <= usize::MAX,
        forall|j: int| 0 <= j < succeeds.len() ==> !succeeds[j],
    ensures
        failover_outcome(succeeds) == FailoverStep::AllFailed,
        forall|p: int| 0 <= p < succeeds.len() ==> #[trigger] failover_calls(succeeds, 0, p),
{
    lemma_failover_from(succeeds, 0, succeeds.len() as int);
}

/// A client that forwards every call to its named providers in order and
/// returns the first success. Results of different providers are never
/// compared with each other.
#[derive(Debug, Clone)]
pub struct MultiplexerEthereumClient<C> {
    clients: Vec<(String, C)>,
}

impl<C> MultiplexerEthereumClient<C> {
    /// The named providers, in the order they are asked.
    pub closed spec fn spec_clients(&self) -> Seq<(String, C)> {
        self.clients@
    }

    pub fn new() -> (r: Self)
        ensures
            r.spec_clients() == Seq::<(String, C)>::empty(),
    {
        Self { clients: Vec::new() }
    }

    /// Adds a provider after the ones already there.
    pub fn add_client(self, name: String, client: C) -> (r: Self)
        ensures
            r.spec_clients() == self.spec_clients().push((name, client)),
    {
        let mut clients = self.clients;
        clients.push((name, client));
        Self { clients }
    }

    pub fn clients(&self) -> (r: &Vec<(String, C)>)
        ensures
            r@ == self.spec_clients(),
    {
        &self.clients
    }

    /// The provider that a delegated call asks first, if any.
    pub fn first_attempt(&self) -> (r: FailoverStep)
        ensures
            r == failover_start(self.spec_clients().len()),
    {
        if self.clients.len() > 0 {
            FailoverStep::Call(0)
        } else {
            FailoverStep::AllFailed
        }
    }

    /// What a delegated call does once provider `index` answered.
    pub fn after_attempt(&self, index: usize, succeeded: bool) -> (r: FailoverStep)
        requires
            index < self.spec_clients().len(),
        ensures
            r == failover_next(self.spec_clients().len(), index as int, succeeded),
    {
        if succeeded {
            FailoverStep::Succeeded(index)
        } else if self.clients.len() - index > 1 {
            FailoverStep::Call(index + 1)
        } else {
            FailoverStep::AllFailed
        }
    }

    /// The provider that encodes transaction data: always the first, since
    /// encoding does not depend on the state of the network.
    pub fn encoding_client(&self) -> (r: &C)
        requires
            self.spec_clients().len() > 0,
        ensures
            *r == self.spec_clients()[0].1,
    {
        &self.clients[0].1
    }
}

impl<C> Default for MultiplexerEthereumClient<C> {
    fn default() -> (r: Self)
        ensures
            r.spec_clients() == Seq::<(String, C)>::empty(),
    {
        Self::new()
    }
}

} // verus!
