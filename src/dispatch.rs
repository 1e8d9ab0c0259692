//! The dispatch bridge: one poll of a request that the host resolves later.
use vstd::prelude::*;
use crate::registry::Registry;

verus! {

/// The result of polling an operation that may not have finished.
#[derive(Debug, PartialEq, Eq)]
pub enum Progress<T> {
    /// The operation finished with this value.
    Ready(T),
    /// Not yet; a readiness source was registered to resume the caller.
    Pending,
}

/// Polls a sent request whose host-side response is `resolution` (`None`
/// while the host has not resolved it). A resolved response, success or
/// protocol error, is returned as it is and nothing is registered; otherwise
/// the response's readiness source, made by `subscribe`, is registered once.
pub fn poll_dispatch<S, T, F: FnOnce() -> S>(
    registry: &mut Registry<S>,
    resolution: Option<T>,
    subscribe: F,
) -> (r: Progress<T>)
    requires
        resolution is None ==> subscribe.requires(()),
    ensures
        resolution matches Some(t) ==> r == Progress::Ready(t)
            && final(registry)@ == old(registry)@,
        resolution is None ==> r == Progress::<T>::Pending
            && final(registry)@.len() == old(registry)@.len() + 1
            && final(registry)@.drop_last() == old(registry)@
            && subscribe.ensures((), final(registry)@.last()),
{
    match resolution {
        Some(t) => Progress::Ready(t),
        None => {
            let source = subscribe();
            registry.register(source);
            proof {
                assert(registry@.drop_last() =~= old(registry)@);
            }
            Progress::Pending
        },
    }
}

} // verus!
