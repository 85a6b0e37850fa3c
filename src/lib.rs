//! Orchestration of asynchronous tasks grouped into collections.
//!
//! A host registers collections in a [`TaskManager`], submits [`Task`]s into them and drives
//! every collection once per tick. Each collection owns an executor (an admission policy such
//! as [`executors::Linear`] or [`executors::Parallel`]), the list of running tasks, and the
//! channel on which finished tasks deliver their results. Tasks may report progress through a
//! [`TaskProgressShared`] handle; the poller applies the deltas to its [`TaskProgress`].
//!
//! The bodies of the tasks are run by an asynchronous runtime outside this crate: a tick hands
//! out a [`Launch`] for every admitted task, and the runtime reports back the handle of the
//! spawned body.

mod channel;
mod collection;
pub mod executors;
mod manager;
mod once;
mod progress;
mod spawning;
mod task;

pub use channel::Channel;
pub use collection::{
    is_kept_in_order, lemma_linear_collection_one_at_a_time, lemma_parallel_collection_starts_all,
    lemma_progress_passes_in_order, lemma_reap_records_cancelled, lemma_unfinished_kept_in_order,
    lemma_unfinished_not_cancelled, reaped_cancelled_ids, stays, unfinished, CollectionData,
};
pub use executors::{ExecutionPoll, TaskExecutor};
pub use manager::TaskManager;
pub use once::{lemma_second_set_keeps_first, set_outcome, SetOnce, SharedOnce};
pub use progress::{
    apply_all, effect, lemma_apply_in_order, lemma_three_deltas, Progress, TaskProgress,
    TaskProgressShared,
};
pub use spawning::{FinishFlag, TaskHandle};
pub use task::{Caller, Launch, Start, Task, TaskData};
