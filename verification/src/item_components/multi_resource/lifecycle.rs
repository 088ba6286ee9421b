//! The order in which a component opens and closes the resources of a set.

use vstd::prelude::*;

verus! {

/// One successful lifecycle step of a delegate stream.
pub enum LifecycleEvent {
    /// The stream of the resource with this ordinal was opened.
    Opened(int),
    /// The stream of the resource with this ordinal was closed at its boundary.
    Closed(int),
}

/// The first `n` steps of a component that opens and closes one resource after
/// the other, in order, starting with the ordinal `first`.
pub open spec fn one_at_a_time(first: int, n: nat) -> Seq<LifecycleEvent> {
    Seq::new(
        n,
        |k: int|
            if k % 2 == 0 {
                LifecycleEvent::Opened(first + k / 2)
            } else {
                LifecycleEvent::Closed(first + k / 2)
            },
    )
}

/// One more step of such a component.
pub proof fn one_more_step(first: int, n: nat)
    ensures
        n % 2 == 0 ==> one_at_a_time(first, n + 1) == one_at_a_time(first, n).push(
            LifecycleEvent::Opened(first + n as int / 2),
        ),
        n % 2 == 1 ==> one_at_a_time(first, n + 1) == one_at_a_time(first, n).push(
            LifecycleEvent::Closed(first + n as int / 2),
        ),
{
    if n % 2 == 0 {
        assert(one_at_a_time(first, n + 1) =~= one_at_a_time(first, n).push(
            LifecycleEvent::Opened(first + n as int / 2),
        ));
    } else {
        assert(one_at_a_time(first, n + 1) =~= one_at_a_time(first, n).push(
            LifecycleEvent::Closed(first + n as int / 2),
        ));
    }
}

/// In such a sequence of steps a resource is opened at most once and closed at
/// most once, is closed only after it was opened, and is closed before the next
/// one is opened.
pub proof fn opens_and_closes_alternate(first: int, n: nat, i: int, j: int)
    requires
        0 <= i < j < n,
    ensures
        one_at_a_time(first, n)[i] != one_at_a_time(first, n)[j],
        one_at_a_time(first, n)[i] matches LifecycleEvent::Opened(a) ==> (one_at_a_time(
            first,
            n,
        )[j] matches LifecycleEvent::Opened(b) ==> a < b && one_at_a_time(first, n)[i + 1]
            == LifecycleEvent::Closed(a)),
        one_at_a_time(first, n)[i] matches LifecycleEvent::Closed(a) ==> i > 0 && one_at_a_time(
            first,
            n,
        )[i - 1] == LifecycleEvent::Opened(a),
{
}

} // verus!
