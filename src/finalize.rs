//! Release of a host resource exactly once, whichever exit path comes first.
use vstd::prelude::*;

verus! {

/// Records whether the resource that it guards has been released.
///
/// Every exit path (normal completion, an error, an early drop) calls
/// [`Finalizer::finalize`]; only the first call is told to release.
pub struct Finalizer {
    pub released: bool,
}

/// The answers of `n` successive calls of `finalize`, starting from a guard
/// whose state is `released`.
pub open spec fn finalize_answers(released: bool, n: nat) -> Seq<bool>
    decreases n,
{
    if n == 0 {
        Seq::empty()
    } else {
        seq![!released] + finalize_answers(true, (n - 1) as nat)
    }
}

/// How many entries of `s` are `true`.
pub open spec fn count_true(s: Seq<bool>) -> nat
    decreases s.len(),
{
    if s.len() == 0 {
        0
    } else {
        (if s[0] { 1nat } else { 0nat }) + count_true(s.drop_first())
    }
}

impl Finalizer {
    /// A guard over a resource that is still held.
    pub fn new() -> (r: Finalizer)
        ensures
            !r.released,
    {
        Finalizer { released: false }
    }

    /// Whether the resource has already been released.
    pub fn is_released(&self) -> (r: bool)
        ensures
            r == self.released,
    {
        self.released
    }

    /// Marks the resource released. Returns `true` exactly when this call is
    /// the one that must release it.
    pub fn finalize(&mut self) -> (first: bool)
        ensures
            first == !old(self).released,
            final(self).released,
    {
        let first = !self.released;
        self.released = true;
        first
    }
}

proof fn lemma_count_true_prepend(b: bool, s: Seq<bool>)
    ensures
        count_true(seq![b] + s) == count_true(s) + if b { 1nat } else { 0nat },
{
    assert((seq![b] + s).drop_first() =~= s);
}

proof fn lemma_released_answers_false(n: nat)
    ensures
        count_true(finalize_answers(true, n)) == 0,
    decreases n,
{
    if n > 0 {
        lemma_released_answers_false((n - 1) as nat);
        lemma_count_true_prepend(false, finalize_answers(true, (n - 1) as nat));
    }
}

/// However many exit paths reach a guard over a held resource, as long as at
/// least one does, exactly one of them is told to release it, and it is the
/// first.
pub proof fn finalize_releases_exactly_once(n: nat)
    requires
        n >= 1,
    ensures
        count_true(finalize_answers(false, n)) == 1,
        finalize_answers(false, n)[0],
{
    lemma_released_answers_false((n - 1) as nat);
    lemma_count_true_prepend(true, finalize_answers(true, (n - 1) as nat));
}

} // verus!
