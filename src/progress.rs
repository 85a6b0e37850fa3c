use crate::channel::Channel;
use crate::once::SharedOnce;
use std::sync::mpsc::{Receiver, SendError, Sender};
use vstd::prelude::*;

verus! {

/// A progress delta: a small operation that a running task proposes and the poller applies to
/// the task's counter ("+1", "set to X", ...).
///
/// `applied` states as a function what `apply` does in place; an implementation writes both.
pub trait Progress: Send {
    /// The counter after this delta is applied to `current`.
    spec fn applied(&self, current: u32) -> u32;

    /// Applies the delta to the counter.
    fn apply(&self, current: &mut u32)
        ensures
            *final(current) == self.applied(*old(current)),
    ;
}

/// What a delta does to a counter, as a function.
pub open spec fn effect<D: Progress>(d: &D) -> spec_fn(u32) -> u32 {
    |c: u32| d.applied(c)
}

/// The counter after the effects of a run of deltas are applied to `current`, first to last.
pub open spec fn apply_all(current: u32, effects: Seq<spec_fn(u32) -> u32>) -> u32
    decreases effects.len(),
{
    if effects.len() == 0 {
        current
    } else {
        (effects.last())(apply_all(current, effects.drop_last()))
    }
}

/// Applying one more delta after a run of deltas gives the result of the whole run, in the
/// order the deltas came: nothing is reordered and nothing else interleaves.
pub proof fn lemma_apply_in_order(
    current: u32,
    effects: Seq<spec_fn(u32) -> u32>,
    next: spec_fn(u32) -> u32,
)
    ensures
        apply_all(current, effects.push(next)) == next(apply_all(current, effects)),
{
    assert(effects.push(next).drop_last() =~= effects);
}

/// Three deltas delivered one after another update the counter as the first, then the
/// second, then the third would.
pub proof fn lemma_three_deltas<A: Progress, B: Progress, C: Progress>(
    current: u32,
    d1: &A,
    d2: &B,
    d3: &C,
)
    ensures
        apply_all(current, seq![effect(d1), effect(d2), effect(d3)]) == d3.applied(
            d2.applied(d1.applied(current)),
        ),
{
    let s = seq![effect(d1), effect(d2), effect(d3)];
    assert(s.drop_last() =~= seq![effect(d1), effect(d2)]);
    assert(seq![effect(d1), effect(d2)].drop_last() =~= seq![effect(d1)]);
    assert(seq![effect(d1)].drop_last() =~= Seq::<spec_fn(u32) -> u32>::empty());
    let c1 = d1.applied(current);
    let c2 = d2.applied(c1);
    assert(apply_all(current, Seq::<spec_fn(u32) -> u32>::empty()) == current);
    assert(effect(d1)(current) == c1);
    assert(apply_all(current, seq![effect(d1)]) == c1);
    assert(apply_all(current, seq![effect(d1), effect(d2)]) == c2);
    assert(apply_all(current, s) == d3.applied(c2));
}

/// The progress of a running task, as the poller sees it: the counter, which only the poller
/// changes; the total, which either side may set once; and the channel on which the task
/// sends its deltas.
pub struct TaskProgress {
    current: u32,
    total: SharedOnce<u32>,
    channel: Channel<Box<dyn Progress>>,
}

impl TaskProgress {
    /// The counter.
    pub closed spec fn current_spec(&self) -> u32 {
        self.current
    }

    /// The total slot.
    pub closed spec fn total_slot(&self) -> SharedOnce<u32> {
        self.total
    }

    /// A tracker with the counter at zero and no total.
    pub fn new() -> (r: Self)
        ensures
            r.current_spec() == 0,
    {
        TaskProgress { current: 0, total: SharedOnce::new(), channel: Channel::new() }
    }

    /// The counter.
    pub fn current(&self) -> (r: u32)
        ensures
            r == self.current_spec(),
    {
        self.current
    }

    /// Mutable access to the counter.
    pub fn current_mut(&mut self) -> (r: &mut u32)
        ensures
            *r == old(self).current_spec(),
            final(self).current_spec() == *final(r),
            final(self).total_slot() == old(self).total_slot(),
    {
        &mut self.current
    }

    /// Sets the total if it is unset; otherwise returns the total already set.
    pub fn set_total(&self, total: u32) -> Result<(), u32> {
        self.total.set(total)
    }

    /// The total, if set.
    pub fn total(&self) -> Option<u32> {
        self.total.get()
    }

    /// A new sender into the progress channel.
    pub fn sender(&self) -> Sender<Box<dyn Progress>> {
        self.channel.sender()
    }

    /// The receiving end of the progress channel.
    pub fn receiver(&self) -> &Receiver<Box<dyn Progress>> {
        self.channel.receiver()
    }

    /// The handle given to the task body: it shares the total slot and sends into the
    /// progress channel.
    pub fn share(&self) -> (r: TaskProgressShared)
        ensures
            r.total_slot().same_slot(&self.total_slot()),
    {
        TaskProgressShared { total: self.total.share(), sender: self.sender() }
    }

    /// Applies one delta to the counter.
    pub fn apply(&mut self, delta: &Box<dyn Progress>)
        ensures
            final(self).current_spec() == delta.applied(old(self).current_spec()),
            final(self).total_slot() == old(self).total_slot(),
    {
        delta.apply(&mut self.current);
    }

    /// Takes at most one pending delta from the channel and applies it; returns the delta
    /// applied.
    pub fn poll(&mut self) -> (r: Option<Box<dyn Progress>>)
        ensures
            match r {
                Option::Some(d) => final(self).current_spec() == d.applied(
                    old(self).current_spec(),
                ),
                Option::None => final(self).current_spec() == old(self).current_spec(),
            },
            final(self).total_slot() == old(self).total_slot(),
    {
        match self.channel.receiver().try_recv() {
            Ok(delta) => {
                self.apply(&delta);
                let r = Some(delta);
                assert(r->Some_0 == delta);
                r
            },
            Err(_) => None,
        }
    }
}

/// The task body's side of a [`TaskProgress`]: it can set the total once and send deltas, and
/// cannot read or change the counter.
pub struct TaskProgressShared {
    total: SharedOnce<u32>,
    sender: Sender<Box<dyn Progress>>,
}

impl TaskProgressShared {
    /// The total slot.
    pub closed spec fn total_slot(&self) -> SharedOnce<u32> {
        self.total
    }

    /// Sets the total if it is unset; otherwise returns the total already set.
    pub fn set_total(&self, total: u32) -> Result<(), u32> {
        self.total.set(total)
    }

    /// Sends a delta to the poller. Fails, handing the delta back, when the poller is gone.
    pub fn update<P: Progress + 'static>(&self, progress: P) -> Result<(), SendError<Box<dyn Progress>>> {
        let delta: Box<dyn Progress> = Box::new(progress);
        self.sender.send(delta)
    }

    /// The total, if set.
    pub fn total(&self) -> Option<u32> {
        self.total.get()
    }

    /// A new sender into the progress channel.
    pub fn sender(&self) -> Sender<Box<dyn Progress>> {
        self.sender.clone()
    }
}

} // verus!
