use crate::channel::Channel;
use crate::executors::{ExecutionPoll, Linear, Parallel, TaskExecutor};
use crate::progress::{apply_all, Progress};
use crate::spawning::TaskHandle;
use crate::task::{Caller, Launch, Start, Task, TaskData};
use std::marker::PhantomData;
use vstd::prelude::*;

verus! {

/// `kept` is `all` with some elements removed and the rest in their order.
pub open spec fn is_kept_in_order<T>(all: Seq<T>, kept: Seq<T>) -> bool {
    exists|picks: Seq<int>|
        #![trigger picks.len()]
        picks.len() == kept.len() && (forall|i: int|
            0 <= i < picks.len() ==> 0 <= #[trigger] picks[i] < all.len() && kept[i]
                == all[picks[i]]) && (forall|i: int, j: int|
            0 <= i < j < picks.len() ==> picks[i] < picks[j])
}

/// Whether the running task `t` stays after reaping, given the flag read for it.
pub open spec fn stays(t: TaskData, finished: bool) -> bool {
    !finished && !t.is_cancelled()
}

/// The tasks that stay after reaping `tasks`, whose flags read `finished`, in order.
pub open spec fn unfinished(tasks: Seq<TaskData>, finished: Seq<bool>) -> Seq<TaskData>
    decreases tasks.len(),
{
    if tasks.len() == 0 || finished.len() == 0 {
        Seq::empty()
    } else {
        let rest = unfinished(tasks.drop_last(), finished.drop_last());
        if stays(tasks.last(), finished.last()) {
            rest.push(tasks.last())
        } else {
            rest
        }
    }
}

/// The identities of the cancelled tasks that reaping `tasks` removes, in order.
pub open spec fn reaped_cancelled_ids(tasks: Seq<TaskData>, finished: Seq<bool>) -> Seq<u64>
    decreases tasks.len(),
{
    if tasks.len() == 0 || finished.len() == 0 {
        Seq::empty()
    } else {
        let rest = reaped_cancelled_ids(tasks.drop_last(), finished.drop_last());
        if tasks.last().is_cancelled() {
            rest.push(tasks.last().id())
        } else {
            rest
        }
    }
}

/// No cancelled task stays after reaping.
pub proof fn lemma_unfinished_not_cancelled(tasks: Seq<TaskData>, finished: Seq<bool>)
    requires
        tasks.len() == finished.len(),
    ensures
        forall|i: int|
            0 <= i < unfinished(tasks, finished).len() ==> !(#[trigger] unfinished(
                tasks,
                finished,
            )[i]).is_cancelled(),
    decreases tasks.len(),
{
    if tasks.len() > 0 {
        let rest = unfinished(tasks.drop_last(), finished.drop_last());
        lemma_unfinished_not_cancelled(tasks.drop_last(), finished.drop_last());
        assert forall|i: int| 0 <= i < unfinished(tasks, finished).len() implies !(
        #[trigger] unfinished(tasks, finished)[i]).is_cancelled() by {
            if i < rest.len() {
                assert(unfinished(tasks, finished)[i] == rest[i]);
            }
        }
    }
}

/// The tasks that stay after reaping keep their order; returns where each stood before.
pub proof fn lemma_unfinished_kept_in_order(tasks: Seq<TaskData>, finished: Seq<bool>) -> (picks:
    Seq<int>)
    requires
        tasks.len() == finished.len(),
    ensures
        picks.len() == unfinished(tasks, finished).len(),
        forall|i: int|
            0 <= i < picks.len() ==> 0 <= #[trigger] picks[i] < tasks.len() && unfinished(
                tasks,
                finished,
            )[i] == tasks[picks[i]],
        forall|i: int, j: int| 0 <= i < j < picks.len() ==> picks[i] < picks[j],
        is_kept_in_order(tasks, unfinished(tasks, finished)),
    decreases tasks.len(),
{
    if tasks.len() == 0 {
        let picks = Seq::<int>::empty();
        assert(picks.len() == 0);
        picks
    } else {
        let rest = lemma_unfinished_kept_in_order(tasks.drop_last(), finished.drop_last());
        let picks = if stays(tasks.last(), finished.last()) {
            rest.push(tasks.len() - 1)
        } else {
            rest
        };
        assert(picks.len() == unfinished(tasks, finished).len());
        picks
    }
}

/// A cancelled task is removed by the next reap, and its identity is recorded among the
/// cancelled ones, whatever its flag read.
pub proof fn lemma_reap_records_cancelled(tasks: Seq<TaskData>, finished: Seq<bool>)
    requires
        tasks.len() == finished.len(),
    ensures
        forall|i: int|
            0 <= i < tasks.len() && (#[trigger] tasks[i]).is_cancelled() ==> reaped_cancelled_ids(
                tasks,
                finished,
            ).contains(tasks[i].id()) && !unfinished(tasks, finished).contains(tasks[i]),
    decreases tasks.len(),
{
    if tasks.len() > 0 {
        let t0 = tasks.drop_last();
        let f0 = finished.drop_last();
        lemma_reap_records_cancelled(t0, f0);
        lemma_unfinished_kept_in_order(t0, f0);
        let ids = reaped_cancelled_ids(tasks, finished);
        let rest_ids = reaped_cancelled_ids(t0, f0);
        assert forall|i: int|
            0 <= i < tasks.len() && (#[trigger] tasks[i]).is_cancelled() implies ids.contains(
            tasks[i].id(),
        ) && !unfinished(tasks, finished).contains(tasks[i]) by {
            if i < tasks.len() - 1 {
                assert(t0[i] == tasks[i]);
                let j = choose|j: int| 0 <= j < rest_ids.len() && rest_ids[j] == tasks[i].id();
                assert(ids[j] == tasks[i].id());
            } else {
                assert(ids[ids.len() - 1] == tasks[i].id());
            }
            if unfinished(tasks, finished).contains(tasks[i]) {
                let j = choose|j: int|
                    0 <= j < unfinished(tasks, finished).len() && unfinished(tasks, finished)[j]
                        == tasks[i];
                lemma_unfinished_not_cancelled(tasks, finished);
                assert(!unfinished(tasks, finished)[j].is_cancelled());
            }
        }
    }
}

/// In a collection with a linear executor, an execution pass starts a task only when no task
/// runs, and then exactly one if any waits: so if at most one task runs before the pass, at
/// most one runs after it.
pub proof fn lemma_linear_collection_one_at_a_time<F, G, V>(
    old: CollectionData<Linear<Task<F, G>>, F, G, V>,
    new: CollectionData<Linear<Task<F, G>>, F, G, V>,
    launches: Seq<Launch<F, G, V>>,
    handed: Seq<Task<F, G>>,
    trace: Seq<Linear<Task<F, G>>>,
)
    requires
        CollectionData::executed(old, new, launches, handed, trace),
    ensures
        launches.len() <= 1,
        old.tasks_spec().len() > 0 ==> launches.len() == 0,
        old.tasks_spec().len() == 0 && old.queue().len() > 0 ==> launches.len() == 1,
        old.tasks_spec().len() <= 1 ==> new.tasks_spec().len() <= 1,
{
    let n = old.tasks_spec().len();
    if launches.len() > 0 {
        assert(trace[0].admits(new.tasks_spec().take(n as int)));
    }
    if launches.len() > 1 {
        assert(trace[1].admits(new.tasks_spec().take((n + 1) as int)));
    }
}

/// In a collection with a parallel executor, an execution pass starts every waiting task,
/// oldest first, whatever runs: the new records carry the names of the queued tasks in
/// order, after the records already there, and the queue is left empty.
pub proof fn lemma_parallel_collection_starts_all<F, G, V>(
    old: CollectionData<Parallel<Task<F, G>>, F, G, V>,
    new: CollectionData<Parallel<Task<F, G>>, F, G, V>,
    launches: Seq<Launch<F, G, V>>,
    handed: Seq<Task<F, G>>,
    trace: Seq<Parallel<Task<F, G>>>,
)
    requires
        CollectionData::executed(old, new, launches, handed, trace),
    ensures
        launches.len() == old.queue().len(),
        new.queue().len() == 0,
        handed == old.queue(),
        new.tasks_spec().len() == old.tasks_spec().len() + old.queue().len(),
        new.tasks_spec().take(old.tasks_spec().len() as int) == old.tasks_spec(),
        forall|i: int|
            0 <= i < old.queue().len() ==> (#[trigger] new.tasks_spec()[old.tasks_spec().len()
                + i]).name_spec() == old.queue()[i].name_spec(),
{
    assert(old.queue().take(launches.len() as int) =~= old.queue());
}

/// Three progress passes apply to a task's counter the deltas taken from its own channel, in
/// the order they were taken: no delta of another task reaches the counter, and its total
/// slot stays the same.
pub proof fn lemma_progress_passes_in_order<E: TaskExecutor<Task<F, G>>, F, G, V>(
    s0: CollectionData<E, F, G, V>,
    s1: CollectionData<E, F, G, V>,
    s2: CollectionData<E, F, G, V>,
    s3: CollectionData<E, F, G, V>,
    t1: Seq<Option<Box<dyn Progress>>>,
    t2: Seq<Option<Box<dyn Progress>>>,
    t3: Seq<Option<Box<dyn Progress>>>,
    i: int,
)
    requires
        CollectionData::progressed(s0, s1, t1),
        CollectionData::progressed(s1, s2, t2),
        CollectionData::progressed(s2, s3, t3),
        0 <= i < s0.tasks_spec().len(),
        s0.tasks_spec()[i].progress_spec() is Some,
        t1[i] is Some && t2[i] is Some && t3[i] is Some,
    ensures
        s3.tasks_spec()[i].id() == s0.tasks_spec()[i].id(),
        s3.tasks_spec()[i].progress_spec() is Some,
        s3.tasks_spec()[i].progress_spec()->Some_0.total_slot() == s0.tasks_spec()[i].progress_spec()->Some_0.total_slot(),
        s3.tasks_spec()[i].progress_spec()->Some_0.current_spec() == apply_all(
            s0.tasks_spec()[i].progress_spec()->Some_0.current_spec(),
            seq![
                |c: u32| t1[i]->Some_0.applied(c),
                |c: u32| t2[i]->Some_0.applied(c),
                |c: u32| t3[i]->Some_0.applied(c),
            ],
        ),
{
    let c0 = s0.tasks_spec()[i].progress_spec()->Some_0.current_spec();
    let e1 = |c: u32| t1[i]->Some_0.applied(c);
    let e2 = |c: u32| t2[i]->Some_0.applied(c);
    let e3 = |c: u32| t3[i]->Some_0.applied(c);
    let s = seq![e1, e2, e3];
    assert(s1.tasks_spec()[i].progress_spec() is Some);
    assert(s2.tasks_spec()[i].progress_spec() is Some);
    assert(s.drop_last() =~= seq![e1, e2]);
    assert(seq![e1, e2].drop_last() =~= seq![e1]);
    assert(seq![e1].drop_last() =~= Seq::<spec_fn(u32) -> u32>::empty());
    assert(apply_all(c0, Seq::<spec_fn(u32) -> u32>::empty()) == c0);
    assert(apply_all(c0, seq![e1]) == e1(c0));
    assert(apply_all(c0, seq![e1, e2]) == e2(e1(c0)));
    assert(apply_all(c0, s) == e3(e2(e1(c0))));
}

/// One collection: its executor, the running tasks and the channel on which finished tasks
/// deliver `(id, value)`. Tasks are numbered in the order they start.
#[verifier::reject_recursive_types(F)]
#[verifier::reject_recursive_types(G)]
#[verifier::reject_recursive_types(V)]
pub struct CollectionData<E, F, G, V> {
    name: String,
    key: u64,
    channel: Channel<(u64, V)>,
    tasks: Vec<TaskData>,
    executor: E,
    bodies: PhantomData<(F, G)>,
    next_id: u64,
    cancelled: Vec<u64>,
}

impl<E: TaskExecutor<Task<F, G>>, F, G, V> CollectionData<E, F, G, V> {
    /// The name shown for the collection.
    pub closed spec fn name_spec(&self) -> Seq<char> {
        self.name@
    }

    /// The key under which the collection is registered.
    pub closed spec fn key_spec(&self) -> u64 {
        self.key
    }

    /// The running tasks, oldest first.
    pub closed spec fn tasks_spec(&self) -> Seq<TaskData> {
        self.tasks@
    }

    /// The executor.
    pub closed spec fn executor(&self) -> E {
        self.executor
    }

    /// The tasks waiting in the executor.
    pub open spec fn queue(&self) -> Seq<Task<F, G>> {
        self.executor().queue()
    }

    /// Whether the executor would let a task start, given the running tasks.
    pub open spec fn admits_more(&self) -> bool {
        self.executor().admits(self.tasks_spec())
    }

    /// The identities of cancelled tasks that have been reaped.
    pub closed spec fn reaped_cancelled(&self) -> Seq<u64> {
        self.cancelled@
    }

    /// Whether the task with identity `id` has been cancelled: it was reaped as cancelled, or
    /// it still runs and is marked cancelled.
    pub open spec fn is_cancelled(&self, id: u64) -> bool {
        self.reaped_cancelled().contains(id) || exists|i: int|
            0 <= i < self.tasks_spec().len() && (#[trigger] self.tasks_spec()[i]).id() == id
                && self.tasks_spec()[i].is_cancelled()
    }

    /// A collection with no task, waiting or running.
    pub fn new(name: &str, key: u64, executor: E) -> (r: Self)
        ensures
            r.executor() == executor,
            r.name_spec() == name@,
            r.key_spec() == key,
            r.tasks_spec() == Seq::<TaskData>::empty(),
            r.reaped_cancelled() == Seq::<u64>::empty(),
    {
        CollectionData {
            name: name.to_string(),
            key,
            channel: Channel::new(),
            tasks: Vec::new(),
            executor,
            bodies: PhantomData,
            next_id: 0,
            cancelled: Vec::new(),
        }
    }

    /// The name shown for the collection.
    pub fn name(&self) -> (r: &str)
        ensures
            r@ == self.name_spec(),
    {
        self.name.as_str()
    }

    /// The key under which the collection is registered.
    pub fn key(&self) -> (r: u64)
        ensures
            r == self.key_spec(),
    {
        self.key
    }

    /// The running tasks, oldest first.
    pub fn tasks(&self) -> (r: &[TaskData])
        ensures
            r@ == self.tasks_spec(),
    {
        self.tasks.as_slice()
    }

    /// Hands a task to the executor.
    pub fn push_task(&mut self, task: Task<F, G>)
        ensures
            final(self).queue().to_multiset() == old(self).queue().to_multiset().insert(task),
            old(self).executor().is_fifo() ==> final(self).executor().is_fifo()
                && final(self).queue() == old(self).queue().push(task),
            final(self).tasks_spec() == old(self).tasks_spec(),
            final(self).key_spec() == old(self).key_spec(),
            final(self).name_spec() == old(self).name_spec(),
            final(self).reaped_cancelled() == old(self).reaped_cancelled(),
    {
        self.executor.push(task);
    }

    /// What an execution pass did, from `old` to `new`, handing out `launches`: the executor
    /// handed out the tasks `handed`, each while it admitted a task given the records then
    /// running (`trace[i]` is the executor at that poll); each became a new record, appended
    /// in order with the next identity, until the executor admitted nothing more.
    pub open spec fn executed(
        old: Self,
        new: Self,
        launches: Seq<Launch<F, G, V>>,
        handed: Seq<Task<F, G>>,
        trace: Seq<E>,
    ) -> bool {
        let n = old.tasks_spec().len();
        &&& handed.len() == launches.len() && trace.len() == launches.len()
        &&& new.tasks_spec().len() == n + launches.len()
        &&& new.tasks_spec().take(n as int) == old.tasks_spec()
        &&& launches.len() > 0 ==> trace[0] == old.executor()
        &&& forall|i: int|
            0 <= i < launches.len() ==> (#[trigger] trace[i]).admits(new.tasks_spec().take(n + i))
        &&& old.queue().to_multiset() == new.queue().to_multiset().add(handed.to_multiset())
        &&& new.queue().len() + launches.len() == old.queue().len()
        &&& old.executor().is_fifo() ==> new.executor().is_fifo() && handed == old.queue().take(
            launches.len() as int,
        ) && new.queue() == old.queue().skip(launches.len() as int)
        &&& forall|i: int|
            0 <= i < launches.len() ==> {
                let d = #[trigger] new.tasks_spec()[n + i];
                let t = handed[i];
                &&& d.id() == launches[i].id
                &&& d.name_spec() == t.name_spec()
                &&& !d.is_cancelled()
                &&& d.handle_spec() is None
                &&& launches[i].finished.same_flag(&d.flag())
                &&& match t.caller() {
                    Caller::Standard(f) => launches[i].start == Start::<F, G>::Standard(f)
                        && d.progress_spec() is None,
                    Caller::Progressing(g) => launches[i].start is Progressing
                        && launches[i].start->Progressing_0 == g && d.progress_spec() is Some
                        && d.progress_spec()->Some_0.current_spec() == 0
                        && launches[i].start->Progressing_1.total_slot().same_slot(
                        &d.progress_spec()->Some_0.total_slot(),
                    ),
                }
            }
        &&& !new.admits_more()
        &&& old.admits_more() ==> launches.len() > 0
        &&& forall|id: u64| old.is_cancelled(id) <==> new.is_cancelled(id)
        &&& new.key_spec() == old.key_spec()
        &&& new.name_spec() == old.name_spec()
        &&& new.reaped_cancelled() == old.reaped_cancelled()
    }

    /// Polls the executor until it answers `Pending`. Each task it lets start gets the next
    /// identity and a record among the running tasks, so that the executor sees it on the
    /// following poll. Returns, in order, what the runtime needs to run the bodies.
    pub fn handle_execution(&mut self) -> (r: Vec<Launch<F, G, V>>)
        ensures
            exists|handed: Seq<Task<F, G>>, trace: Seq<E>|
                Self::executed(*old(self), *final(self), r@, handed, trace),
            final(self).queue().len() + r@.len() == old(self).queue().len(),
            old(self).admits_more() ==> r@.len() > 0,
            !final(self).admits_more(),
    {
        let mut launches: Vec<Launch<F, G, V>> = Vec::new();
        let ghost mut handed: Seq<Task<F, G>> = Seq::empty();
        let ghost mut trace: Seq<E> = Seq::empty();
        let ghost n = old(self).tasks@.len();
        proof {
            handed.to_multiset_ensures();
            assert(handed.to_multiset() =~= vstd::multiset::Multiset::<Task<F, G>>::empty());
            assert(old(self).executor.queue().to_multiset() =~= self.executor.queue().to_multiset().add(
                handed.to_multiset(),
            ));
            assert(self.tasks@.take(n as int) =~= old(self).tasks@);
        }
        loop
            invariant
                self.tasks@.len() == n + launches@.len(),
                n == old(self).tasks@.len(),
                self.tasks@.take(n as int) == old(self).tasks@,
                handed.len() == launches@.len() && trace.len() == launches@.len(),
                launches@.len() > 0 ==> trace[0] == old(self).executor,
                launches@.len() == 0 ==> self.executor == old(self).executor,
                forall|i: int|
                    0 <= i < launches@.len() ==> (#[trigger] trace[i]).admits(self.tasks@.take(n + i)),
                old(self).executor.queue().to_multiset() == self.executor.queue().to_multiset().add(
                    handed.to_multiset(),
                ),
                old(self).executor.is_fifo() ==> self.executor.is_fifo() && handed == old(
                    self,
                ).executor.queue().take(launches@.len() as int) && self.executor.queue() == old(
                    self,
                ).executor.queue().skip(launches@.len() as int),
                forall|i: int|
                    0 <= i < launches@.len() ==> {
                        let d = #[trigger] self.tasks@[n + i];
                        let t = handed[i];
                        &&& d.id() == launches@[i].id
                        &&& d.name_spec() == t.name_spec()
                        &&& !d.is_cancelled()
                        &&& d.handle_spec() is None
                        &&& launches@[i].finished.same_flag(&d.flag())
                        &&& match t.caller() {
                            Caller::Standard(f) => launches@[i].start == Start::<F, G>::Standard(f)
                                && d.progress_spec() is None,
                            Caller::Progressing(g) => launches@[i].start is Progressing
                                && launches@[i].start->Progressing_0 == g && d.progress_spec() is Some
                                && d.progress_spec()->Some_0.current_spec() == 0
                                && launches@[i].start->Progressing_1.total_slot().same_slot(
                                &d.progress_spec()->Some_0.total_slot(),
                            ),
                        }
                    },
                self.executor.queue().len() + launches@.len() == old(self).executor.queue().len(),
                self.key == old(self).key,
                self.name == old(self).name,
                self.cancelled == old(self).cancelled,
            decreases self.executor.queue().len(),
        {
            let ghost before = self.executor;
            let ghost running = self.tasks@;
            match self.executor.poll(self.tasks.as_slice()) {
                ExecutionPoll::Ready(task) => {
                    proof {
                        let after = self.executor.queue();
                        vstd::seq_lib::to_multiset_len(before.queue());
                        vstd::seq_lib::to_multiset_len(after);
                        assert(before.queue().to_multiset().len() == after.to_multiset().len() + 1);
                    }
                    let id = self.next_id;
                    self.next_id = self.next_id.wrapping_add(1);
                    let (data, launch) = task.execute(id, self.channel.sender());
                    self.tasks.push(data);
                    launches.push(launch);
                    proof {
                        let k = handed.len();
                        let q0 = old(self).executor.queue();
                        vstd::seq_lib::to_multiset_build(handed, task);
                        assert(old(self).executor.queue().to_multiset() =~= self.executor.queue().to_multiset().add(
                            handed.push(task).to_multiset(),
                        ));
                        if old(self).executor.is_fifo() {
                            assert(q0.skip(k as int)[0] == q0[k as int]);
                            assert(handed.push(task) =~= q0.take((k + 1) as int));
                            assert(self.executor.queue() =~= q0.skip((k + 1) as int));
                        }
                        assert(running.take(n as int) =~= running.take(n as int));
                        assert(running.take((n + k) as int) =~= running);
                        handed = handed.push(task);
                        trace = trace.push(before);
                        assert forall|i: int|
                            0 <= i < launches@.len() implies (#[trigger] trace[i]).admits(
                            self.tasks@.take(n + i),
                        ) by {
                            assert(self.tasks@.take(n + i) =~= running.take(n + i));
                        }
                        assert(self.tasks@.take(n as int) =~= old(self).tasks@);
                    }
                },
                ExecutionPoll::Pending => {
                    proof {
                        assert(self.tasks@.take(n as int) =~= self.tasks@.subrange(0, n as int));
                        assert forall|id: u64|
                            old(self).is_cancelled(id) <==> self.is_cancelled(id) by {
                            if exists|i: int|
                                0 <= i < n && (#[trigger] old(self).tasks_spec()[i]).id() == id
                                    && old(self).tasks_spec()[i].is_cancelled() {
                                let i = choose|i: int|
                                    0 <= i < n && (#[trigger] old(self).tasks_spec()[i]).id()
                                        == id && old(self).tasks_spec()[i].is_cancelled();
                                assert(self.tasks@.take(n as int)[i] == self.tasks@[i]);
                                assert(self.tasks_spec()[i].id() == id);
                            }
                            if exists|i: int|
                                0 <= i < self.tasks_spec().len() && (#[trigger] self.tasks_spec()[i]).id()
                                    == id && self.tasks_spec()[i].is_cancelled() {
                                let i = choose|i: int|
                                    0 <= i < self.tasks_spec().len() && (#[trigger] self.tasks_spec()[i]).id()
                                        == id && self.tasks_spec()[i].is_cancelled();
                                if i >= n {
                                    assert(!self.tasks@[n + (i - n)].is_cancelled());
                                } else {
                                    assert(self.tasks@.take(n as int)[i] == self.tasks@[i]);
                                    assert(old(self).tasks_spec()[i].id() == id);
                                }
                            }
                        }
                        if launches@.len() == 0 {
                            assert(self.tasks@ =~= old(self).tasks@);
                        }
                        assert(Self::executed(*old(self), *self, launches@, handed, trace));
                    }
                    return launches;
                },
            }
        }
    }

    /// Records the handle of the spawned body of the running task `id`; returns whether such a
    /// task runs.
    pub fn attach(&mut self, id: u64, handle: TaskHandle) -> (r: bool)
        ensures
            r == exists|i: int|
                0 <= i < old(self).tasks_spec().len() && (#[trigger] old(self).tasks_spec()[i]).id()
                    == id,
            r ==> exists|i: int|
                0 <= i < final(self).tasks_spec().len() && (#[trigger] final(self).tasks_spec()[i]).id()
                    == id && final(self).tasks_spec()[i].handle_spec() == Some(handle),
            final(self).tasks_spec().len() == old(self).tasks_spec().len(),
            forall|i: int|
                0 <= i < final(self).tasks_spec().len() ==> {
                    let d = #[trigger] final(self).tasks_spec()[i];
                    let o = old(self).tasks_spec()[i];
                    &&& d.id() == o.id()
                    &&& d.name_spec() == o.name_spec()
                    &&& d.is_cancelled() == o.is_cancelled()
                    &&& d.progress_spec() == o.progress_spec()
                },
            final(self).queue() == old(self).queue(),
            final(self).key_spec() == old(self).key_spec(),
            final(self).name_spec() == old(self).name_spec(),
            final(self).reaped_cancelled() == old(self).reaped_cancelled(),
    {
        let mut i: usize = 0;
        while i < self.tasks.len()
            invariant
                0 <= i <= self.tasks@.len(),
                self.tasks@ == old(self).tasks@,
                forall|j: int| 0 <= j < i ==> (#[trigger] self.tasks@[j]).id() != id,
                self.executor == old(self).executor,
                self.key == old(self).key,
                self.name == old(self).name,
                self.cancelled == old(self).cancelled,
            decreases self.tasks@.len() - i,
        {
            if self.tasks[i].task_id() == id {
                self.tasks[i].attach(handle);
                assert(self.tasks_spec()[i as int].id() == id);
                return true;
            }
            i += 1;
        }
        false
    }

    /// Cancels the running task at `index`.
    pub fn cancel_task(&mut self, index: usize)
        requires
            index < old(self).tasks_spec().len(),
        ensures
            final(self).tasks_spec().len() == old(self).tasks_spec().len(),
            final(self).tasks_spec()[index as int].is_cancelled(),
            forall|i: int|
                0 <= i < final(self).tasks_spec().len() ==> {
                    let d = #[trigger] final(self).tasks_spec()[i];
                    let o = old(self).tasks_spec()[i];
                    &&& d.id() == o.id()
                    &&& d.name_spec() == o.name_spec()
                    &&& i != index ==> d == o
                },
            final(self).is_cancelled(old(self).tasks_spec()[index as int].id()),
            forall|id: u64| old(self).is_cancelled(id) ==> final(self).is_cancelled(id),
            final(self).queue() == old(self).queue(),
            final(self).key_spec() == old(self).key_spec(),
            final(self).name_spec() == old(self).name_spec(),
            final(self).reaped_cancelled() == old(self).reaped_cancelled(),
    {
        self.tasks[index].cancel();
        proof {
            assert forall|id: u64| old(self).is_cancelled(id) implies self.is_cancelled(id) by {
                if !old(self).reaped_cancelled().contains(id) {
                    let i = choose|i: int|
                        0 <= i < old(self).tasks_spec().len() && (#[trigger] old(
                            self,
                        ).tasks_spec()[i]).id() == id && old(self).tasks_spec()[i].is_cancelled();
                    assert(self.tasks_spec()[i].id() == id);
                }
            }
            assert(self.tasks_spec()[index as int].id() == old(self).tasks_spec()[index as int].id());
        }
    }

    /// What a progress pass did, from `old` to `new`: `taken[i]` is the delta taken from the
    /// channel of the `i`-th running task, if any. A task with a tracker keeps its total slot,
    /// and its counter moves by the delta taken, or stays; a task without one is unchanged.
    pub open spec fn progressed(old: Self, new: Self, taken: Seq<Option<Box<dyn Progress>>>) -> bool {
        &&& taken.len() == old.tasks_spec().len()
        &&& new.tasks_spec().len() == old.tasks_spec().len()
        &&& forall|i: int|
            0 <= i < new.tasks_spec().len() ==> {
                let d = #[trigger] new.tasks_spec()[i];
                let o = old.tasks_spec()[i];
                &&& d.same_but_progress(o)
                &&& match o.progress_spec() {
                    Option::None => d.progress_spec() is None && taken[i] is None,
                    Option::Some(p) => d.progress_spec() is Some && {
                        let q = d.progress_spec()->Some_0;
                        &&& q.total_slot() == p.total_slot()
                        &&& match taken[i] {
                            Option::Some(delta) => q.current_spec() == delta.applied(
                                p.current_spec(),
                            ),
                            Option::None => q.current_spec() == p.current_spec(),
                        }
                    },
                }
            }
        &&& forall|id: u64| old.is_cancelled(id) <==> new.is_cancelled(id)
        &&& new.executor() == old.executor()
        &&& new.key_spec() == old.key_spec()
        &&& new.name_spec() == old.name_spec()
        &&& new.reaped_cancelled() == old.reaped_cancelled()
    }

    /// Takes at most one pending delta for every running task that tracks progress, and
    /// applies it to that task's counter. Returns, per running task, the delta taken.
    pub fn handle_progress(&mut self) -> (r: Vec<Option<Box<dyn Progress>>>)
        ensures
            Self::progressed(*old(self), *final(self), r@),
    {
        let mut taken: Vec<Option<Box<dyn Progress>>> = Vec::new();
        let mut i: usize = 0;
        while i < self.tasks.len()
            invariant
                0 <= i <= self.tasks@.len(),
                taken@.len() == i,
                self.tasks@.len() == old(self).tasks@.len(),
                forall|j: int|
                    0 <= j < self.tasks@.len() ==> (#[trigger] self.tasks@[j]).same_but_progress(
                        old(self).tasks@[j],
                    ),
                forall|j: int| i <= j < self.tasks@.len() ==> #[trigger] self.tasks@[j] == old(self).tasks@[j],
                forall|j: int|
                    0 <= j < i ==> {
                        let d = #[trigger] self.tasks@[j];
                        let o = old(self).tasks@[j];
                        match o.progress_spec() {
                            Option::None => d.progress_spec() is None && taken@[j] is None,
                            Option::Some(p) => d.progress_spec() is Some && {
                                let q = d.progress_spec()->Some_0;
                                &&& q.total_slot() == p.total_slot()
                                &&& match taken@[j] {
                                    Option::Some(delta) => q.current_spec() == delta.applied(
                                        p.current_spec(),
                                    ),
                                    Option::None => q.current_spec() == p.current_spec(),
                                }
                            },
                        }
                    },
                self.executor == old(self).executor,
                self.key == old(self).key,
                self.name == old(self).name,
                self.cancelled == old(self).cancelled,
            decreases self.tasks@.len() - i,
        {
            let ghost prev = self.tasks@;
            let got = match self.tasks[i].progress_mut() {
                Some(p) => p.poll(),
                None => None,
            };
            taken.push(got);
            proof {
                assert forall|j: int| 0 <= j < self.tasks@.len() && j != i implies #[trigger] self.tasks@[j]
                    == prev[j] by {}
                assert(taken@[i as int] == got);
            }
            i += 1;
        }
        proof {
            assert forall|id: u64| old(self).is_cancelled(id) <==> self.is_cancelled(id) by {
                if exists|i: int|
                    0 <= i < old(self).tasks_spec().len() && (#[trigger] old(
                        self,
                    ).tasks_spec()[i]).id() == id && old(self).tasks_spec()[i].is_cancelled() {
                    let i = choose|i: int|
                        0 <= i < old(self).tasks_spec().len() && (#[trigger] old(
                            self,
                        ).tasks_spec()[i]).id() == id && old(self).tasks_spec()[i].is_cancelled();
                    assert(self.tasks_spec()[i].id() == id);
                }
                if exists|i: int|
                    0 <= i < self.tasks_spec().len() && (#[trigger] self.tasks_spec()[i]).id()
                        == id && self.tasks_spec()[i].is_cancelled() {
                    let i = choose|i: int|
                        0 <= i < self.tasks_spec().len() && (#[trigger] self.tasks_spec()[i]).id()
                            == id && self.tasks_spec()[i].is_cancelled();
                    assert(old(self).tasks_spec()[i].id() == id);
                }
            }
        }
        taken
    }

    /// Whether the task with identity `id` has been cancelled.
    pub fn cancelled(&self, id: u64) -> (r: bool)
        ensures
            r == self.is_cancelled(id),
    {
        let mut i: usize = 0;
        while i < self.cancelled.len()
            invariant
                0 <= i <= self.cancelled@.len(),
                forall|j: int| 0 <= j < i ==> self.cancelled@[j] != id,
            decreases self.cancelled@.len() - i,
        {
            if self.cancelled[i] == id {
                return true;
            }
            i += 1;
        }
        let mut k: usize = 0;
        while k < self.tasks.len()
            invariant
                0 <= k <= self.tasks@.len(),
                !self.reaped_cancelled().contains(id),
                forall|j: int|
                    0 <= j < k ==> !((#[trigger] self.tasks@[j]).id() == id
                        && self.tasks@[j].is_cancelled()),
            decreases self.tasks@.len() - k,
        {
            if self.tasks[k].task_id() == id && self.tasks[k].cancelled() {
                assert(self.tasks_spec()[k as int].id() == id);
                return true;
            }
            k += 1;
        }
        false
    }

    /// Decides what becomes of a value `(id, value)` that a task delivered: the value of a
    /// cancelled task is dropped; any other is handed on.
    pub fn accept_result(&self, received: (u64, V)) -> (r: Option<(u64, V)>)
        ensures
            r == (if self.is_cancelled(received.0) {
                Option::<(u64, V)>::None
            } else {
                Option::Some(received)
            }),
    {
        if self.cancelled(received.0) {
            None
        } else {
            Some(received)
        }
    }

    /// What taking a delivered value did, from `old` to `new`: only the channel changed, and a
    /// value handed on does not come from a cancelled task.
    pub open spec fn delivered(old: Self, new: Self, r: Option<(u64, V)>) -> bool {
        &&& r matches Option::Some((id, _)) ==> !old.is_cancelled(id)
        &&& new.tasks_spec() == old.tasks_spec()
        &&& new.executor() == old.executor()
        &&& new.key_spec() == old.key_spec()
        &&& new.name_spec() == old.name_spec()
        &&& new.reaped_cancelled() == old.reaped_cancelled()
    }

    /// Takes at most one delivered value from the result channel. Returns it with the identity
    /// of the task that delivered it, unless that task has been cancelled.
    pub fn handle_results(&mut self) -> (r: Option<(u64, V)>)
        ensures
            Self::delivered(*old(self), *final(self), r),
    {
        match self.channel.receiver().try_recv() {
            Ok(received) => self.accept_result(received),
            Err(_) => None,
        }
    }

    /// Removes the tasks that `finished` marks, and every cancelled task, keeping the others
    /// in order; `finished[i]` is what was read of the flag of the `i`-th running task. The
    /// identities of the cancelled tasks removed are remembered, so that what they still
    /// deliver is dropped.
    pub fn reap(&mut self, finished: &[bool])
        requires
            finished@.len() == old(self).tasks_spec().len(),
        ensures
            final(self).tasks_spec() == unfinished(old(self).tasks_spec(), finished@),
            final(self).reaped_cancelled() == old(self).reaped_cancelled() + reaped_cancelled_ids(
                old(self).tasks_spec(),
                finished@,
            ),
            final(self).executor() == old(self).executor(),
            final(self).key_spec() == old(self).key_spec(),
            final(self).name_spec() == old(self).name_spec(),
    {
        let mut remaining: Vec<TaskData> = Vec::new();
        std::mem::swap(&mut self.tasks, &mut remaining);
        let ghost all = remaining@;
        let mut k: usize = 0;
        while remaining.len() > 0
            invariant
                0 <= k <= all.len(),
                all.len() == finished@.len(),
                remaining@ == all.subrange(k as int, all.len() as int),
                all == old(self).tasks@,
                self.tasks@ == unfinished(all.subrange(0, k as int), finished@.subrange(0, k as int)),
                self.cancelled@ == old(self).cancelled@ + reaped_cancelled_ids(
                    all.subrange(0, k as int),
                    finished@.subrange(0, k as int),
                ),
                self.executor == old(self).executor,
                self.key == old(self).key,
                self.name == old(self).name,
            decreases remaining@.len(),
        {
            let task = remaining.remove(0);
            let ghost before = all.subrange(0, k as int);
            let ghost flags_before = finished@.subrange(0, k as int);
            proof {
                assert(task == all[k as int]);
                assert(all.subrange(0, k + 1).drop_last() =~= before);
                assert(finished@.subrange(0, k + 1).drop_last() =~= flags_before);
            }
            if finished[k] || task.cancelled() {
                if task.cancelled() {
                    self.cancelled.push(task.task_id());
                    proof {
                        assert((old(self).cancelled@ + reaped_cancelled_ids(before, flags_before)).push(
                            all[k as int].id(),
                        ) =~= old(self).cancelled@ + reaped_cancelled_ids(before, flags_before).push(
                            all[k as int].id(),
                        ));
                    }
                }
            } else {
                self.tasks.push(task);
            }
            k += 1;
            proof {
                assert(remaining@ =~= all.subrange(k as int, all.len() as int));
            }
        }
        proof {
            assert(all.subrange(0, k as int) =~= all);
            assert(finished@.subrange(0, k as int) =~= finished@);
        }
    }

    /// What a reaping pass did, from `old` to `new`: for the flags read of the running tasks,
    /// exactly the tasks that [`stays`] keeps remain, in order, and the cancelled ones removed
    /// are recorded.
    pub open spec fn reaped_from(old: Self, new: Self) -> bool {
        &&& exists|f: Seq<bool>|
            #![trigger unfinished(old.tasks_spec(), f)]
            f.len() == old.tasks_spec().len() && new.tasks_spec() == unfinished(old.tasks_spec(), f)
                && new.reaped_cancelled() == old.reaped_cancelled() + reaped_cancelled_ids(
                old.tasks_spec(),
                f,
            )
        &&& new.executor() == old.executor()
        &&& new.key_spec() == old.key_spec()
        &&& new.name_spec() == old.name_spec()
    }

    /// Removes every task that has finished or been cancelled, keeping the others in order.
    /// The identities of the cancelled tasks removed are remembered, so that what they still
    /// deliver is dropped.
    pub fn handle_deletion(&mut self)
        ensures
            Self::reaped_from(*old(self), *final(self)),
            forall|i: int|
                0 <= i < final(self).tasks_spec().len() ==> !(
                #[trigger] final(self).tasks_spec()[i]).is_cancelled(),
            is_kept_in_order(old(self).tasks_spec(), final(self).tasks_spec()),
            forall|id: u64| old(self).is_cancelled(id) ==> final(self).is_cancelled(id),
    {
        let mut finished: Vec<bool> = Vec::new();
        let mut i: usize = 0;
        while i < self.tasks.len()
            invariant
                0 <= i <= self.tasks@.len(),
                finished@.len() == i,
            decreases self.tasks@.len() - i,
        {
            finished.push(self.tasks[i].is_finished());
            i += 1;
        }
        self.reap(finished.as_slice());
        proof {
            let t = old(self).tasks_spec();
            let f = finished@;
            assert(self.tasks_spec() == unfinished(t, f));
            lemma_unfinished_not_cancelled(t, f);
            lemma_unfinished_kept_in_order(t, f);
            lemma_reap_records_cancelled(t, f);
            assert forall|id: u64| old(self).is_cancelled(id) implies self.is_cancelled(id) by {
                if old(self).reaped_cancelled().contains(id) {
                    let j = choose|j: int|
                        0 <= j < old(self).reaped_cancelled().len() && old(self).reaped_cancelled()[j]
                            == id;
                    assert(self.reaped_cancelled()[j] == id);
                } else {
                    let i = choose|i: int|
                        0 <= i < t.len() && (#[trigger] t[i]).id() == id && t[i].is_cancelled();
                    let ids = reaped_cancelled_ids(t, f);
                    assert(ids.contains(id));
                    let j = choose|j: int| 0 <= j < ids.len() && ids[j] == id;
                    assert(self.reaped_cancelled()[old(self).reaped_cancelled().len() + j] == id);
                }
            }
        }
    }

    /// What one orchestration pass did, from `old` to `new`: an execution pass, a progress
    /// pass, taking at most one delivered value, and a reaping pass, in this order, through
    /// the intermediate states `a`, `b` and `c`.
    pub open spec fn ticked(old: Self, new: Self, r: (Seq<Launch<F, G, V>>, Option<(u64, V)>)) -> bool {
        exists|
            a: Self,
            b: Self,
            c: Self,
            handed: Seq<Task<F, G>>,
            trace: Seq<E>,
            taken: Seq<Option<Box<dyn Progress>>>,
        |
            #![trigger Self::executed(old, a, r.0, handed, trace), Self::progressed(a, b, taken), Self::delivered(b, c, r.1)]
            Self::executed(old, a, r.0, handed, trace) && Self::progressed(a, b, taken)
                && Self::delivered(b, c, r.1) && Self::reaped_from(c, new)
    }

    /// One orchestration pass, in this order: start what the executor admits, apply pending
    /// progress, take at most one delivered value, and reap finished tasks. Returns what the
    /// runtime needs to run the bodies of the started tasks, and the value for the result
    /// handler, if one came from a task that was not cancelled.
    pub fn handle_all(&mut self) -> (r: (Vec<Launch<F, G, V>>, Option<(u64, V)>))
        ensures
            Self::ticked(*old(self), *final(self), (r.0@, r.1)),
            old(self).admits_more() ==> r.0@.len() > 0,
            r.1 matches Option::Some((id, _)) ==> !old(self).is_cancelled(id),
            final(self).queue().len() + r.0@.len() == old(self).queue().len(),
            forall|i: int|
                0 <= i < final(self).tasks_spec().len() ==> !(
                #[trigger] final(self).tasks_spec()[i]).is_cancelled(),
            forall|id: u64| old(self).is_cancelled(id) ==> final(self).is_cancelled(id),
            final(self).key_spec() == old(self).key_spec(),
            final(self).name_spec() == old(self).name_spec(),
    {
        let launches = self.handle_execution();
        let ghost a = *self;
        let taken = self.handle_progress();
        let ghost b = *self;
        let result = self.handle_results();
        let ghost c = *self;
        self.handle_deletion();
        proof {
            let (handed, trace) = choose|handed: Seq<Task<F, G>>, trace: Seq<E>|
                Self::executed(*old(self), a, launches@, handed, trace);
            assert(Self::executed(*old(self), a, launches@, handed, trace));
            assert(Self::progressed(a, b, taken@));
            assert(Self::delivered(b, c, result));
            assert(Self::reaped_from(c, *self));
            let r = (launches@, result);
            assert(r.0 == launches@ && r.1 == result);
            assert(Self::executed(*old(self), a, r.0, handed, trace) && Self::progressed(a, b, taken@)
                && Self::delivered(b, c, r.1) && Self::reaped_from(c, *self));
            assert(Self::ticked(*old(self), *self, (launches@, result)));
        }
        (launches, result)
    }
}

} // verus!
