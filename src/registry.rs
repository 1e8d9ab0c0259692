//! The readiness registry: the registrations that wait for the host to report
//! their source ready, and the executor's round over them.
use vstd::prelude::*;

verus! {

/// Registrations awaiting readiness, in the order they were made.
///
/// `S` is whatever the driver pairs with a source (in practice the host's
/// pollable and a resume callback); the registry never looks inside it.
pub struct Registry<S> {
    entries: Vec<S>,
}

/// Why the executor cannot carry out a round.
#[derive(Debug, Clone, Copy, PartialEq, Eq, Structural)]
pub enum RoundFault {
    /// The computation reported pending but registered no readiness source,
    /// so waiting could never end: a logic error in the computation.
    PendingWithoutSources,
    /// The host named a ready index outside the registrations it was given.
    ReadyIndexOutOfRange { index: u32 },
}

/// For each of the first `n` registrations, whether the host named its
/// index among the ready ones.
pub open spec fn ready_mask(n: nat, ready: Seq<u32>) -> Seq<bool> {
    Seq::new(n, |i: int| is_reported(ready, i))
}

/// Whether the host named index `i` among the ready ones.
pub open spec fn is_reported(ready: Seq<u32>, i: int) -> bool {
    exists|j: int| 0 <= j < ready.len() && ready[j] as int == i
}

/// The elements of `s` whose flag in `mask` equals `want`, in their order.
pub open spec fn pick<S>(s: Seq<S>, mask: Seq<bool>, want: bool) -> Seq<S>
    decreases s.len(),
{
    if s.len() == 0 {
        Seq::empty()
    } else {
        let rest = pick(s.drop_last(), mask, want);
        if mask[s.len() - 1] == want {
            rest.push(s.last())
        } else {
            rest
        }
    }
}

/// Whether every index that the host reported lies below `n`.
pub open spec fn indices_in_range(n: nat, ready: Seq<u32>) -> bool {
    forall|j: int| 0 <= j < ready.len() ==> (#[trigger] ready[j]) < n
}

impl<S> View for Registry<S> {
    type V = Seq<S>;

    closed spec fn view(&self) -> Seq<S> {
        self.entries@
    }
}

impl<S> Registry<S> {
    /// An empty registry.
    pub fn new() -> (r: Registry<S>)
        ensures
            r@ == Seq::<S>::empty(),
    {
        Registry { entries: Vec::new() }
    }

    /// Number of registrations waiting.
    pub fn len(&self) -> (r: usize)
        ensures
            r == self@.len(),
    {
        self.entries.len()
    }

    /// Whether no registration is waiting.
    pub fn is_empty(&self) -> (r: bool)
        ensures
            r == (self@.len() == 0),
    {
        self.entries.len() == 0
    }

    /// Appends a registration.
    pub fn register(&mut self, registration: S)
        ensures
            final(self)@ == old(self)@.push(registration),
    {
        self.entries.push(registration);
    }

    /// Starts a round after the computation reported pending: hands out every
    /// registration and leaves the registry empty. A pending computation that
    /// left nothing registered is reported, not waited on.
    pub fn take_round(&mut self) -> (r: Result<Vec<S>, RoundFault>)
        ensures
            old(self)@.len() == 0 ==> r == Err::<Vec<S>, RoundFault>(
                RoundFault::PendingWithoutSources,
            ) && final(self)@ == old(self)@,
            old(self)@.len() > 0 ==> (r matches Ok(taken) && taken@ == old(self)@)
                && final(self)@ == Seq::<S>::empty(),
    {
        if self.entries.len() == 0 {
            return Err(RoundFault::PendingWithoutSources);
        }
        let mut taken: Vec<S> = Vec::new();
        std::mem::swap(&mut taken, &mut self.entries);
        Ok(taken)
    }

    /// Ends a round: given the registrations handed out by `take_round` and
    /// the indices that the host reported ready, puts the unfired ones back
    /// (after any registered meanwhile) and returns the fired ones, each
    /// group in its original order. An index out of range is reported and
    /// leaves the registry as it was.
    pub fn settle_round(&mut self, taken: Vec<S>, ready: &Vec<u32>) -> (r: Result<
        Vec<S>,
        RoundFault,
    >)
        ensures
            r is Ok <==> indices_in_range(taken@.len(), ready@),
            r is Ok ==> r->Ok_0@ == pick(taken@, ready_mask(taken@.len(), ready@), true)
                && final(self)@ == old(self)@ + pick(
                taken@,
                ready_mask(taken@.len(), ready@),
                false,
            ),
            r matches Err(RoundFault::ReadyIndexOutOfRange { index }) ==> ready@.contains(index)
                && index >= taken@.len(),
            r is Err ==> (r matches Err(RoundFault::ReadyIndexOutOfRange { .. })) && final(self)@
                == old(self)@,
    {
        let n = taken.len();
        let mask = match ready_flags(n, ready) {
            Ok(m) => m,
            Err(index) => {
                return Err(RoundFault::ReadyIndexOutOfRange { index });
            },
        };
        let ghost all = taken@;
        let ghost start = self@;
        let mut rest = taken;
        let mut fired: Vec<S> = Vec::new();
        let mut unfired: Vec<S> = Vec::new();
        let mut k: usize = 0;
        while k < n
            invariant
                n == all.len(),
                mask@ == ready_mask(n as nat, ready@),
                k <= n,
                rest@ == all.skip(k as int),
                fired@ == pick(all.take(k as int), mask@, true),
                unfired@ == pick(all.take(k as int), mask@, false),
            decreases n - k,
        {
            let item = rest.remove(0);
            assert(all.take(k + 1).drop_last() =~= all.take(k as int));
            assert(rest@ =~= all.skip(k + 1));
            if mask[k] {
                fired.push(item);
            } else {
                unfired.push(item);
            }
            k = k + 1;
        }
        assert(all.take(n as int) =~= all);
        self.entries.append(&mut unfired);
        Ok(fired)
    }
}

proof fn lemma_pick_all_marked<S>(s: Seq<S>, mask: Seq<bool>)
    requires
        forall|i: int| 0 <= i < s.len() ==> #[trigger] mask[i],
    ensures
        pick(s, mask, true) == s,
        pick(s, mask, false) == Seq::<S>::empty(),
    decreases s.len(),
{
    if s.len() > 0 {
        lemma_pick_all_marked(s.drop_last(), mask);
        assert(mask[s.len() - 1]);
        assert(s.drop_last().push(s.last()) =~= s);
    }
}

/// A round in which the host reports every registration ready hands every
/// registration to be resumed, in order, and puts none back: a computation
/// that registers one source per pending step leaves the registry empty after
/// each round, and so finishes after exactly as many rounds as it was pending.
pub proof fn full_round_fires_everything<S>(taken: Seq<S>, ready: Seq<u32>)
    requires
        forall|i: int| 0 <= i < taken.len() ==> is_reported(ready, i),
    ensures
        pick(taken, ready_mask(taken.len(), ready), true) == taken,
        pick(taken, ready_mask(taken.len(), ready), false) == Seq::<S>::empty(),
{
    let mask = ready_mask(taken.len(), ready);
    assert forall|i: int| 0 <= i < taken.len() implies #[trigger] mask[i] by {
        assert(is_reported(ready, i));
    }
    lemma_pick_all_marked(taken, mask);
}

/// The flags of [`ready_mask`] for `n` registrations, or the first reported
/// index that is out of range.
fn ready_flags(n: usize, ready: &Vec<u32>) -> (r: Result<Vec<bool>, u32>)
    ensures
        r is Ok <==> indices_in_range(n as nat, ready@),
        r is Ok ==> r->Ok_0@ == ready_mask(n as nat, ready@),
        r matches Err(index) ==> ready@.contains(index) && index >= n,
{
    let mut mask: Vec<bool> = vec![false; n];
    let mut j: usize = 0;
    while j < ready.len()
        invariant
            j <= ready@.len(),
            mask@ == ready_mask(n as nat, ready@.take(j as int)),
            indices_in_range(n as nat, ready@.take(j as int)),
        decreases ready@.len() - j,
    {
        let index = ready[j];
        assert(ready@.take(j as int).push(index) =~= ready@.take(j + 1));
        if index as usize >= n {
            assert(ready@[j as int] == index);
            return Err(index);
        }
        mask.set(index as usize, true);
        assert forall|i: int| 0 <= i < n implies mask@[i] == is_reported(
            ready@.take(j + 1),
            i,
        ) by {
            let before = ready@.take(j as int);
            let after = ready@.take(j + 1);
            if is_reported(after, i) {
                let w = choose|w: int| 0 <= w < after.len() && after[w] as int == i;
                if w < j {
                    assert(before[w] as int == i);
                }
            }
            if is_reported(before, i) {
                let w = choose|w: int| 0 <= w < before.len() && before[w] as int == i;
                assert(after[w] as int == i);
            }
            if i == index as int {
                assert(after[j as int] == index);
            }
        }
        assert(mask@ =~= ready_mask(n as nat, ready@.take(j + 1)));
        j = j + 1;
    }
    assert(ready@.take(j as int) =~= ready@);
    Ok(mask)
}

} // verus!
