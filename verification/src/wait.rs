//! Waiting for a count: what each look at the count decides, and how a wait as
//! a whole ends.
use vstd::prelude::*;

use crate::duration::Duration;
use crate::error::Error;

verus! {

/// The pause between two looks at a count, in milliseconds.
pub const POLL_MILLIS: u64 = 10;

/// What a look at a count decides.
#[derive(Debug, Clone, Copy, PartialEq, Eq, Structural)]
pub enum Verdict {
    /// The count is the awaited one.
    Reached,
    /// The count is another one, and the time is up.
    TimedOut,
    /// The count is another one, and there is time left.
    Undecided,
}

/// What a wait does next.
#[derive(Debug)]
pub enum Wait {
    /// The wait is over, with this result.
    Done(Result<(), Error>),
    /// The wait goes on: sleep for this long and look again.
    Again(Duration),
}

/// What a look at a count decides, with times in nanoseconds. The count is
/// looked at first, so a wait can succeed after its time; and the time is up
/// only when more than the allowed time has passed.
pub open spec fn verdict(current: nat, target: nat, elapsed: nat, timeout: nat) -> Verdict {
    if current == target {
        Verdict::Reached
    } else if elapsed > timeout {
        Verdict::TimedOut
    } else {
        Verdict::Undecided
    }
}

/// Decides on the count that was just seen.
pub fn look(current: u64, target: u64, elapsed: &Duration, timeout: &Duration) -> (seen: Verdict)
    ensures
        seen == verdict(current as nat, target as nat, elapsed@, timeout@),
{
    if current == target {
        Verdict::Reached
    } else if elapsed.exceeds(timeout) {
        Verdict::TimedOut
    } else {
        Verdict::Undecided
    }
}

/// A look finds the count reached exactly if it is the awaited one, and the time
/// up exactly if it is not and more than the allowed time has passed.
pub proof fn law_look(current: u64, target: u64, elapsed: Duration, timeout: Duration, seen: Verdict)
    requires
        call_ensures(look, (current, target, &elapsed, &timeout), seen),
    ensures
        seen == Verdict::Reached <==> current == target,
        seen == Verdict::TimedOut <==> current != target && elapsed@ > timeout@,
        seen == Verdict::Undecided <==> current != target && elapsed@ <= timeout@,
{
}

/// One look at a count: the count seen, and the nanoseconds since the wait
/// began.
pub struct Look {
    pub count: nat,
    pub elapsed: nat,
}

/// What the look number `i` decides.
pub open spec fn verdict_at(looks: Seq<Look>, i: int, target: nat, timeout: nat) -> Verdict {
    verdict(looks[i].count, target, looks[i].elapsed, timeout)
}

/// Whether a wait that makes these looks ends with look number `i`, that is,
/// whether that look is the first one to decide anything.
pub open spec fn ends_at(looks: Seq<Look>, i: int, target: nat, timeout: nat) -> bool {
    &&& 0 <= i < looks.len()
    &&& verdict_at(looks, i, target, timeout) != Verdict::Undecided
    &&& forall|j: int|
        0 <= j < i ==> #[trigger] verdict_at(looks, j, target, timeout) == Verdict::Undecided
}

/// A wait ends at most once.
pub proof fn law_wait_ends_once(looks: Seq<Look>, i: int, j: int, target: nat, timeout: nat)
    requires
        ends_at(looks, i, target, timeout),
        ends_at(looks, j, target, timeout),
    ensures
        i == j,
{
    if i < j {
        assert(verdict_at(looks, i, target, timeout) == Verdict::Undecided);
    } else if j < i {
        assert(verdict_at(looks, j, target, timeout) == Verdict::Undecided);
    }
}

/// A wait succeeds with a look exactly if that look sees the awaited count and
/// every look before it saw another count while there was time left.
pub proof fn law_wait_succeeds(looks: Seq<Look>, i: int, target: nat, timeout: nat)
    ensures
        (ends_at(looks, i, target, timeout) && verdict_at(looks, i, target, timeout)
            == Verdict::Reached) <==> {
            &&& 0 <= i < looks.len()
            &&& looks[i].count == target
            &&& forall|j: int|
                0 <= j < i ==> (#[trigger] looks[j]).count != target && looks[j].elapsed <= timeout
        },
{
    if ends_at(looks, i, target, timeout) {
        assert forall|j: int| 0 <= j < i implies (#[trigger] looks[j]).count != target
            && looks[j].elapsed <= timeout by {
            assert(verdict_at(looks, j, target, timeout) == Verdict::Undecided);
        }
    }
}

/// A wait times out with a look exactly if that look comes after the allowed
/// time, no look before it did, and none of them saw the awaited count.
pub proof fn law_wait_times_out(looks: Seq<Look>, i: int, target: nat, timeout: nat)
    ensures
        (ends_at(looks, i, target, timeout) && verdict_at(looks, i, target, timeout)
            == Verdict::TimedOut) <==> {
            &&& 0 <= i < looks.len()
            &&& looks[i].elapsed > timeout
            &&& forall|j: int| 0 <= j < i ==> (#[trigger] looks[j]).elapsed <= timeout
            &&& forall|j: int| 0 <= j <= i ==> (#[trigger] looks[j]).count != target
        },
{
    if ends_at(looks, i, target, timeout) && verdict_at(looks, i, target, timeout)
        == Verdict::TimedOut {
        assert forall|j: int| 0 <= j < i implies (#[trigger] looks[j]).elapsed <= timeout by {
            assert(verdict_at(looks, j, target, timeout) == Verdict::Undecided);
        }
        assert forall|j: int| 0 <= j <= i implies (#[trigger] looks[j]).count != target by {
            if j < i {
                assert(verdict_at(looks, j, target, timeout) == Verdict::Undecided);
            }
        }
    }
}

/// The look that ends a wait, found by going back from a look that decides
/// something.
proof fn lemma_first_decision(looks: Seq<Look>, n: int, target: nat, timeout: nat) -> (i: int)
    requires
        0 <= n < looks.len(),
        verdict_at(looks, n, target, timeout) != Verdict::Undecided,
    ensures
        0 <= i <= n,
        ends_at(looks, i, target, timeout),
    decreases n,
{
    if exists|j: int|
        0 <= j < n && #[trigger] verdict_at(looks, j, target, timeout) != Verdict::Undecided {
        let j = choose|j: int|
            0 <= j < n && #[trigger] verdict_at(looks, j, target, timeout) != Verdict::Undecided;
        lemma_first_decision(looks, j, target, timeout)
    } else {
        n
    }
}

/// A wait comes to an end. Each pause takes at least the polling interval, so
/// once enough looks have been made for the pauses to exceed the allowed time,
/// one of them has ended the wait, no later than the first one past that time.
pub proof fn law_wait_ends(looks: Seq<Look>, target: nat, timeout: nat)
    requires
        forall|i: int|
            0 <= i < looks.len() ==> (#[trigger] looks[i]).elapsed >= i * (POLL_MILLIS * 1_000_000),
        looks.len() > timeout / (POLL_MILLIS * 1_000_000) as nat + 1,
    ensures
        exists|i: int|
            0 <= i <= timeout / (POLL_MILLIS * 1_000_000) as nat + 1 && #[trigger] ends_at(
                looks,
                i,
                target,
                timeout,
            ),
{
    let step: nat = (POLL_MILLIS * 1_000_000) as nat;
    let n: int = (timeout / step + 1) as int;
    assert(n * step > timeout) by (nonlinear_arith)
        requires
            n == timeout / step + 1,
            step == 10_000_000,
    ;
    assert(looks[n].elapsed > timeout);
    let i = lemma_first_decision(looks, n, target, timeout);
    assert(ends_at(looks, i, target, timeout));
}

/// Only the awaited count itself ends a wait well, not a greater one: where
/// counts never decrease, a wait that has seen a greater count does not succeed
/// any more.
pub proof fn law_overshoot_never_succeeds(
    looks: Seq<Look>,
    seen: int,
    i: int,
    target: nat,
    timeout: nat,
)
    requires
        0 <= seen <= i < looks.len(),
        forall|a: int, b: int|
            0 <= a <= b < looks.len() ==> (#[trigger] looks[a]).count <= (#[trigger] looks[b]).count,
        looks[seen].count > target,
    ensures
        verdict_at(looks, i, target, timeout) != Verdict::Reached,
{
    assert(looks[seen].count <= looks[i].count);
}

} // verus!
