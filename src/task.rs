use crate::progress::{TaskProgress, TaskProgressShared};
use crate::spawning::{FinishFlag, TaskHandle};
use std::sync::mpsc::Sender;
use vstd::prelude::*;

verus! {

/// The body of a task: a ready computation `F`, or a computation `G` that first takes the
/// progress handle of the task and then yields the computation.
pub enum Caller<F, G> {
    /// A computation with no progress.
    Standard(F),
    /// A computation that reports progress.
    Progressing(G),
}

impl<F, G> Caller<F, G> {
    /// A body with no progress.
    pub fn standard(fut: F) -> (r: Self)
        ensures
            r == Caller::<F, G>::Standard(fut),
    {
        Caller::Standard(fut)
    }

    /// A body that receives a progress handle when it starts.
    pub fn progressing(fun: G) -> (r: Self)
        ensures
            r == Caller::<F, G>::Progressing(fun),
    {
        Caller::Progressing(fun)
    }
}

/// A named unit of work waiting to run.
pub struct Task<F, G> {
    name: String,
    is_finished: FinishFlag,
    inner: Caller<F, G>,
}

impl<F, G> Task<F, G> {
    /// The name of the task.
    pub closed spec fn name_spec(&self) -> Seq<char> {
        self.name@
    }

    /// The body of the task.
    pub closed spec fn caller(&self) -> Caller<F, G> {
        self.inner
    }

    /// A task with the given name and body.
    pub fn new(name: &str, caller: Caller<F, G>) -> (r: Self)
        ensures
            r.name_spec() == name@,
            r.caller() == caller,
    {
        Task { name: name.to_string(), is_finished: FinishFlag::new(), inner: caller }
    }

    /// The name of the task.
    pub fn name(&self) -> (r: &str)
        ensures
            r@ == self.name_spec(),
    {
        self.name.as_str()
    }

    /// Turns the task into the record of a running task and what the runtime needs to run its
    /// body. A progressing body gets a fresh tracker, whose shared side goes with the body.
    pub fn execute<V>(self, id: u64, results: Sender<(u64, V)>) -> (r: (TaskData, Launch<F, G, V>))
        ensures
            r.0.id() == id,
            r.0.name_spec() == self.name_spec(),
            !r.0.is_cancelled(),
            r.0.handle_spec() is None,
            r.1.id == id,
            r.1.finished.same_flag(&r.0.flag()),
            match self.caller() {
                Caller::Standard(f) => r.1.start == Start::<F, G>::Standard(f)
                    && r.0.progress_spec() is None,
                Caller::Progressing(g) => r.1.start is Progressing
                    && r.1.start->Progressing_0 == g
                    && r.0.progress_spec() is Some
                    && r.0.progress_spec()->Some_0.current_spec() == 0
                    && r.1.start->Progressing_1.total_slot().same_slot(
                        &r.0.progress_spec()->Some_0.total_slot(),
                    ),
            },
    {
        let (start, progress) = match self.inner {
            Caller::Standard(f) => (Start::Standard(f), None),
            Caller::Progressing(g) => {
                let tracker = TaskProgress::new();
                let shared = tracker.share();
                (Start::Progressing(g, shared), Some(tracker))
            },
        };
        let launch = Launch { id, start, finished: self.is_finished.share(), results };
        let data = TaskData {
            name: self.name,
            id,
            handle: None,
            is_finished: self.is_finished,
            cancelled: false,
            progress,
        };
        (data, launch)
    }
}

/// How the body of an admitted task starts.
pub enum Start<F, G> {
    /// Run the computation as it is.
    Standard(F),
    /// Hand the progress handle to the closure, then run the computation it yields.
    Progressing(G, TaskProgressShared),
}

/// What the runtime needs to run the body of an admitted task: when the body yields its value
/// `v`, the runtime sends `(id, v)` on `results` and then sets `finished`.
#[verifier::reject_recursive_types(V)]
pub struct Launch<F, G, V> {
    /// The identity of the task within its collection.
    pub id: u64,
    /// The body, ready to start.
    pub start: Start<F, G>,
    /// The finished flag of the task.
    pub finished: FinishFlag,
    /// The result channel of the collection.
    pub results: Sender<(u64, V)>,
}

/// The record of a running task, kept until the task is reaped.
pub struct TaskData {
    name: String,
    id: u64,
    handle: Option<TaskHandle>,
    is_finished: FinishFlag,
    cancelled: bool,
    progress: Option<TaskProgress>,
}

impl TaskData {
    /// The identity of the task within its collection.
    pub closed spec fn id(&self) -> u64 {
        self.id
    }

    /// The name of the task.
    pub closed spec fn name_spec(&self) -> Seq<char> {
        self.name@
    }

    /// Whether the task has been cancelled through [`TaskData::cancel`].
    pub closed spec fn is_cancelled(&self) -> bool {
        self.cancelled
    }

    /// The handle of the spawned body, once attached.
    pub closed spec fn handle_spec(&self) -> Option<TaskHandle> {
        self.handle
    }

    /// The finished flag.
    pub closed spec fn flag(&self) -> FinishFlag {
        self.is_finished
    }

    /// The progress tracker, for a progressing task.
    pub closed spec fn progress_spec(&self) -> Option<TaskProgress> {
        self.progress
    }

    /// The name of the task.
    pub fn name(&self) -> (r: &str)
        ensures
            r@ == self.name_spec(),
    {
        self.name.as_str()
    }

    /// The identity of the task within its collection.
    pub fn task_id(&self) -> (r: u64)
        ensures
            r == self.id(),
    {
        self.id
    }

    /// The handle of the spawned body, once attached.
    pub fn handle(&self) -> (r: Option<&TaskHandle>)
        ensures
            r is Some <==> self.handle_spec() is Some,
            r is Some ==> *r->Some_0 == self.handle_spec()->Some_0,
    {
        match &self.handle {
            Some(h) => Some(h),
            None => None,
        }
    }

    /// Records the handle of the spawned body.
    pub fn attach(&mut self, handle: TaskHandle)
        ensures
            final(self).handle_spec() == Some(handle),
            final(self).id() == old(self).id(),
            final(self).name_spec() == old(self).name_spec(),
            final(self).is_cancelled() == old(self).is_cancelled(),
            final(self).progress_spec() == old(self).progress_spec(),
    {
        self.handle = Some(handle);
    }

    /// Whether the task has finished or been cancelled. A cancelled task counts as finished.
    pub fn is_finished(&self) -> (r: bool)
        ensures
            self.is_cancelled() ==> r,
    {
        self.cancelled || self.is_finished.is_set()
    }

    /// Whether the task has been cancelled.
    pub fn cancelled(&self) -> (r: bool)
        ensures
            r == self.is_cancelled(),
    {
        self.cancelled
    }

    /// Cancels the task: asks the runtime to stop the body and marks the task finished without
    /// waiting for it. Nothing the body delivers afterwards is handed on.
    pub fn cancel(&mut self)
        ensures
            final(self).is_cancelled(),
            final(self).id() == old(self).id(),
            final(self).name_spec() == old(self).name_spec(),
            final(self).progress_spec() == old(self).progress_spec(),
    {
        if let Some(h) = &self.handle {
            h.abort();
        }
        self.is_finished.finish();
        self.cancelled = true;
    }

    /// The progress tracker, for a progressing task.
    pub fn progress(&self) -> (r: Option<&TaskProgress>)
        ensures
            r is Some <==> self.progress_spec() is Some,
            r is Some ==> *r->Some_0 == self.progress_spec()->Some_0,
    {
        match &self.progress {
            Some(p) => Some(p),
            None => None,
        }
    }

    /// Mutable access to the progress tracker, for a progressing task. Nothing else of the
    /// record changes.
    pub fn progress_mut(&mut self) -> (r: Option<&mut TaskProgress>)
        ensures
            r is Some <==> old(self).progress_spec() is Some,
            r is Some ==> *r->Some_0 == old(self).progress_spec()->Some_0
                && final(self).progress_spec() == Some(*final(r->Some_0)),
            r is None ==> final(self).progress_spec() == old(self).progress_spec(),
            final(self).same_but_progress(*old(self)),
    {
        match &mut self.progress {
            Some(p) => Some(p),
            None => None,
        }
    }

    /// Whether two records agree on everything but the progress tracker.
    pub open spec fn same_but_progress(&self, other: TaskData) -> bool {
        &&& self.id() == other.id()
        &&& self.name_spec() == other.name_spec()
        &&& self.is_cancelled() == other.is_cancelled()
        &&& self.handle_spec() == other.handle_spec()
        &&& self.flag() == other.flag()
    }
}

} // verus!
