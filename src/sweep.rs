use crate::recency::{replay, RecencySet, SetOp};
use vstd::prelude::*;

verus! {

/// Seconds between two sweeps.
pub const SWEEP_INTERVAL_SECS: u64 = 2;

/// What wakes the sweeper.
#[derive(PartialEq, Eq, Structural, Clone, Copy, Debug)]
pub enum Wake {
    /// The interval elapsed.
    Tick,
    /// The process is shutting down.
    Shutdown,
}

/// What the sweeper does next.
#[derive(PartialEq, Eq, Structural, Clone, Copy, Debug)]
pub enum SweepStep {
    /// Keep running; `Some(n)` when `n` recordings were cleared and should
    /// be reported, `None` on an idle tick.
    Continue(Option<usize>),
    /// Stop the loop.
    Stop,
}

/// Empties the set if it holds anything, returning how many recordings
/// were cleared; an empty set is left alone and yields `None`.
pub fn sweep(recent: &mut RecencySet) -> (r: Option<usize>)
    ensures
        old(recent)@.len() == 0 ==> r is None && final(recent)@ == old(recent)@,
        old(recent)@.len() > 0 ==> r == Some(old(recent)@.len() as usize),
        final(recent)@.len() == 0,
        forall|id: Seq<char>| !final(recent)@.contains(id),
{
    if recent.is_empty() {
        None
    } else {
        Some(recent.clear())
    }
}

/// One wake of the sweeper: a tick sweeps, a shutdown stops the loop and
/// leaves the set alone.
pub fn step(recent: &mut RecencySet, wake: Wake) -> (r: SweepStep)
    ensures
        wake == Wake::Shutdown ==> r == SweepStep::Stop && final(recent)@ == old(recent)@,
        wake == Wake::Tick && old(recent)@.len() == 0 ==> r == SweepStep::Continue(None)
            && final(recent)@ == old(recent)@,
        wake == Wake::Tick && old(recent)@.len() > 0 ==> r == SweepStep::Continue(
            Some(old(recent)@.len() as usize),
        ) && final(recent)@.len() == 0,
{
    match wake {
        Wake::Tick => SweepStep::Continue(sweep(recent)),
        Wake::Shutdown => SweepStep::Stop,
    }
}

/// After a sweep of a set holding at least one sender, which clears it,
/// none of the previously recent senders is recent any more.
pub proof fn lemma_sweep_forgets(before: Seq<Seq<char>>)
    requires
        before.len() > 0,
    ensures
        forall|k: int|
            0 <= k < before.len() ==> !replay(before, seq![SetOp::Clear]).contains(
                #[trigger] before[k],
            ),
{
    assert(seq![SetOp::Clear].drop_last() =~= Seq::<SetOp>::empty());
    assert(replay(before, seq![SetOp::Clear]) =~= Seq::<Seq<char>>::empty());
}

} // verus!
