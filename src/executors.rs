//! Admission policies for the tasks of a collection.

use crate::task::TaskData;
use std::collections::VecDeque;
use vstd::prelude::*;

verus! {

/// Whether the executor lets a task start now.
pub enum ExecutionPoll<T> {
    /// The task held here starts running.
    Ready(T),
    /// No task starts now.
    Pending,
}

/// An admission policy: it holds the tasks submitted to a collection and decides, given the
/// running tasks, which of them starts next. It only ever hands back a task it received, and
/// never the same one twice.
///
/// `queue`, `admits` and `is_fifo` describe the executor for proofs and are never called at run time;
/// an implementation still has to define them.
pub trait TaskExecutor<T> {
    /// The tasks waiting to start.
    spec fn queue(&self) -> Seq<T>;

    /// Whether a poll with these running tasks lets a task start.
    spec fn admits(&self, tasks: Seq<TaskData>) -> bool;

    /// Whether the executor hands out its tasks oldest first.
    spec fn is_fifo(&self) -> bool;

    /// Takes a new task.
    fn push(&mut self, task: T)
        ensures
            final(self).queue().to_multiset() == old(self).queue().to_multiset().insert(task),
            old(self).is_fifo() ==> final(self).is_fifo() && final(self).queue() == old(
                self,
            ).queue().push(task),
    ;

    /// Decides whether a waiting task starts now, given the running tasks.
    fn poll(&mut self, tasks: &[TaskData]) -> (r: ExecutionPoll<T>)
        ensures
            r is Ready <==> old(self).admits(tasks@),
            r is Pending ==> !final(self).admits(tasks@),
            match r {
                ExecutionPoll::Ready(t) => old(self).queue().to_multiset() == final(self).queue().to_multiset().insert(t),
                ExecutionPoll::Pending => final(self).queue() == old(self).queue(),
            },
            old(self).is_fifo() ==> final(self).is_fifo() && (r matches ExecutionPoll::Ready(t)
                ==> old(self).queue().len() > 0 && t == old(self).queue()[0] && final(self).queue()
                == old(self).queue().drop_first()),
    ;
}

/// An executor behind a box behaves as the executor inside it.
impl<T> TaskExecutor<T> for Box<dyn TaskExecutor<T>> {
    open spec fn queue(&self) -> Seq<T> {
        (**self).queue()
    }

    open spec fn admits(&self, tasks: Seq<TaskData>) -> bool {
        (**self).admits(tasks)
    }

    open spec fn is_fifo(&self) -> bool {
        (**self).is_fifo()
    }

    fn push(&mut self, task: T) {
        (**self).push(task)
    }

    fn poll(&mut self, tasks: &[TaskData]) -> (r: ExecutionPoll<T>) {
        (**self).poll(tasks)
    }
}

/// What a linear executor does on a poll, given its queue and the number of running tasks:
/// while a task runs and others wait, nothing starts; otherwise the oldest waiting task starts.
pub open spec fn linear_poll<T>(queue: Seq<T>, running: nat) -> (Seq<T>, ExecutionPoll<T>) {
    if queue.len() > 0 && running > 0 {
        (queue, ExecutionPoll::Pending)
    } else if queue.len() > 0 {
        (queue.drop_first(), ExecutionPoll::Ready(queue[0]))
    } else {
        (queue, ExecutionPoll::Pending)
    }
}

/// What a parallel executor does on a poll: the oldest waiting task starts, whatever runs.
pub open spec fn parallel_poll<T>(queue: Seq<T>, running: nat) -> (Seq<T>, ExecutionPoll<T>) {
    if queue.len() > 0 {
        (queue.drop_first(), ExecutionPoll::Ready(queue[0]))
    } else {
        (queue, ExecutionPoll::Pending)
    }
}

/// The tasks a linear executor starts in one execution pass: it is polled until it answers
/// `Pending`, and each task it starts joins the running ones.
pub open spec fn linear_pass<T>(queue: Seq<T>, running: nat) -> Seq<T>
    decreases queue.len(),
{
    let (rest, r) = linear_poll(queue, running);
    match r {
        ExecutionPoll::Ready(t) => if rest.len() < queue.len() {
            seq![t] + linear_pass(rest, running + 1)
        } else {
            Seq::empty()
        },
        ExecutionPoll::Pending => Seq::empty(),
    }
}

/// The tasks a parallel executor starts in one execution pass.
pub open spec fn parallel_pass<T>(queue: Seq<T>, running: nat) -> Seq<T>
    decreases queue.len(),
{
    let (rest, r) = parallel_poll(queue, running);
    match r {
        ExecutionPoll::Ready(t) => if rest.len() < queue.len() {
            seq![t] + parallel_pass(rest, running + 1)
        } else {
            Seq::empty()
        },
        ExecutionPoll::Pending => Seq::empty(),
    }
}

/// A linear executor starts a task only when no task runs, and then only one: an execution
/// pass while a task runs starts nothing, and a pass with nothing running starts the oldest
/// waiting task alone. So if at most one task runs before a pass, at most one runs after it.
pub proof fn lemma_linear_one_at_a_time<T>(queue: Seq<T>, running: nat)
    ensures
        linear_poll(queue, running).1 is Ready ==> running == 0,
        running > 0 ==> linear_pass(queue, running) == Seq::<T>::empty(),
        running == 0 && queue.len() > 0 ==> linear_pass(queue, running) == seq![queue[0]],
        linear_pass(queue, running).len() <= 1,
        running <= 1 ==> running + linear_pass(queue, running).len() <= 1,
{
    if running == 0 && queue.len() > 0 {
        let rest = queue.drop_first();
        assert(linear_pass(rest, 1) == Seq::<T>::empty());
        assert(seq![queue[0]] + Seq::<T>::empty() =~= seq![queue[0]]);
    }
}

/// A parallel executor starts every waiting task in one execution pass, oldest first,
/// however many tasks already run.
pub proof fn lemma_parallel_starts_all<T>(queue: Seq<T>, running: nat)
    ensures
        parallel_pass(queue, running) == queue,
    decreases queue.len(),
{
    if queue.len() > 0 {
        let rest = queue.drop_first();
        lemma_parallel_starts_all(rest, running + 1);
        assert(seq![queue[0]] + rest =~= queue);
    } else {
        assert(queue =~= Seq::<T>::empty());
    }
}

/// Runs one task at a time: the next one starts once no task of the collection runs.
pub struct Linear<T> {
    inner: VecDeque<T>,
}

impl<T> Linear<T> {
    /// An executor with nothing waiting.
    pub fn new() -> (r: Self)
        ensures
            r.queue() == Seq::<T>::empty(),
    {
        Linear { inner: VecDeque::new() }
    }

    /// The number of tasks waiting.
    pub fn len(&self) -> (r: usize)
        ensures
            r == self.queue().len(),
    {
        self.inner.len()
    }
}

impl<T> Default for Linear<T> {
    fn default() -> (r: Self)
        ensures
            r.queue() == Seq::<T>::empty(),
    {
        Linear::new()
    }
}

impl<T> TaskExecutor<T> for Linear<T> {
    closed spec fn queue(&self) -> Seq<T> {
        self.inner@
    }

    open spec fn admits(&self, tasks: Seq<TaskData>) -> bool {
        self.queue().len() > 0 && tasks.len() == 0
    }

    open spec fn is_fifo(&self) -> bool {
        true
    }

    fn push(&mut self, task: T)
        ensures
            final(self).queue() == old(self).queue().push(task),
    {
        self.inner.push_back(task);
        proof {
            vstd::seq_lib::to_multiset_build(old(self).queue(), task);
        }
    }

    fn poll(&mut self, tasks: &[TaskData]) -> (r: ExecutionPoll<T>)
        ensures
            (final(self).queue(), r) == linear_poll(old(self).queue(), tasks@.len()),
    {
        if self.inner.len() > 0 && tasks.len() > 0 {
            return ExecutionPoll::Pending;
        }
        match self.inner.pop_front() {
            Some(t) => {
                proof {
                    assert(old(self).queue() =~= final(self).queue().insert(0, t));
                    vstd::seq_lib::to_multiset_insert(final(self).queue(), 0, t);
                }
                ExecutionPoll::Ready(t)
            },
            None => ExecutionPoll::Pending,
        }
    }
}

/// Runs every task as soon as it is submitted.
pub struct Parallel<T> {
    inner: VecDeque<T>,
}

impl<T> Parallel<T> {
    /// An executor with nothing waiting.
    pub fn new() -> (r: Self)
        ensures
            r.queue() == Seq::<T>::empty(),
    {
        Parallel { inner: VecDeque::new() }
    }

    /// The number of tasks waiting.
    pub fn len(&self) -> (r: usize)
        ensures
            r == self.queue().len(),
    {
        self.inner.len()
    }
}

impl<T> Default for Parallel<T> {
    fn default() -> (r: Self)
        ensures
            r.queue() == Seq::<T>::empty(),
    {
        Parallel::new()
    }
}

impl<T> TaskExecutor<T> for Parallel<T> {
    closed spec fn queue(&self) -> Seq<T> {
        self.inner@
    }

    open spec fn admits(&self, tasks: Seq<TaskData>) -> bool {
        self.queue().len() > 0
    }

    open spec fn is_fifo(&self) -> bool {
        true
    }

    fn push(&mut self, task: T)
        ensures
            final(self).queue() == old(self).queue().push(task),
    {
        self.inner.push_back(task);
        proof {
            vstd::seq_lib::to_multiset_build(old(self).queue(), task);
        }
    }

    fn poll(&mut self, tasks: &[TaskData]) -> (r: ExecutionPoll<T>)
        ensures
            (final(self).queue(), r) == parallel_poll(old(self).queue(), tasks@.len()),
    {
        match self.inner.pop_front() {
            Some(t) => {
                proof {
                    assert(old(self).queue() =~= final(self).queue().insert(0, t));
                    vstd::seq_lib::to_multiset_insert(final(self).queue(), 0, t);
                }
                ExecutionPoll::Ready(t)
            },
            None => ExecutionPoll::Pending,
        }
    }
}

} // verus!
