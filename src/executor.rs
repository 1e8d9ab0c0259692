//! The executor's decision after each step of the computation it drives.
use vstd::prelude::*;
use crate::dispatch::Progress;
use crate::registry::{Registry, RoundFault};

verus! {

/// What the executor does after one step of its computation.
#[derive(Debug)]
pub enum Next<T, S> {
    /// The computation finished: return its result unchanged.
    Finish(T),
    /// Wait on the host for these registrations, resume the fired ones,
    /// and step again.
    Wait(Vec<S>),
}

/// Decides on the outcome of one step. A finished computation's result is
/// passed through untouched and the registry left alone; a pending one
/// starts a round over every registration, which is fatal when there is
/// none, since then nothing could ever resume it.
pub fn after_step<S, T>(registry: &mut Registry<S>, outcome: Progress<T>) -> (r: Result<
    Next<T, S>,
    RoundFault,
>)
    ensures
        outcome matches Progress::Ready(t) ==> (r matches Ok(Next::Finish(u)) && u == t)
            && final(registry)@ == old(registry)@,
        outcome is Pending && old(registry)@.len() > 0 ==> (r matches Ok(Next::Wait(taken))
            && taken@ == old(registry)@) && final(registry)@ == Seq::<S>::empty(),
        outcome is Pending && old(registry)@.len() == 0 ==> r == Err::<Next<T, S>, RoundFault>(
            RoundFault::PendingWithoutSources,
        ) && final(registry)@ == old(registry)@,
{
    match outcome {
        Progress::Ready(t) => Ok(Next::Finish(t)),
        Progress::Pending => match registry.take_round() {
            Ok(taken) => Ok(Next::Wait(taken)),
            Err(e) => Err(e),
        },
    }
}

} // verus!
