use egui_task_manager::executors::{Linear, Parallel};
use egui_task_manager::{
    Caller, CollectionData, Launch, Progress, Start, Task, TaskExecutor, TaskHandle, TaskManager,
};

type Body = Task<u32, u32>;

struct UnitProgress;

impl Progress for UnitProgress {
    fn applied(&self, current: u32) -> u32 {
        current + 1
    }

    fn apply(&self, current: &mut u32) {
        *current += 1;
    }
}

type Exec = Box<dyn TaskExecutor<Body>>;

fn linear() -> Exec {
    Box::new(Linear::new())
}

fn parallel() -> Exec {
    Box::new(Parallel::new())
}

/// Does what the runtime does when the body of a task yields its value.
fn complete(launch: Launch<u32, u32, u32>) {
    let value = match launch.start {
        Start::Standard(v) => v,
        Start::Progressing(v, _) => v,
    };
    launch.results.send((launch.id, value)).unwrap();
    launch.finished.finish();
}

#[test]
fn linear_collection_delivers_result_once() {
    let mut collection: CollectionData<Exec, u32, u32, u32> = CollectionData::new("numbers", 1, linear());
    collection.push_task(Task::new("X", Caller::standard(5)));
    let (mut launches, result) = collection.handle_all();
    assert!(result.is_none());
    assert_eq!(launches.len(), 1);
    assert_eq!(collection.tasks().len(), 1);
    assert_eq!(collection.tasks()[0].name(), "X");
    complete(launches.remove(0));
    let mut seen = Vec::new();
    for _ in 0..5 {
        let (launches, result) = collection.handle_all();
        assert!(launches.is_empty());
        if let Some((_, value)) = result {
            seen.push(value);
        }
    }
    assert_eq!(seen, vec![5]);
    assert!(collection.tasks().is_empty());
}

#[test]
fn parallel_collection_runs_all_at_once() {
    let mut collection: CollectionData<Exec, u32, u32, u32> = CollectionData::new("all", 2, parallel());
    collection.push_task(Task::new("A", Caller::standard(1)));
    collection.push_task(Task::new("B", Caller::standard(2)));
    collection.push_task(Task::new("C", Caller::standard(3)));
    let launches = collection.handle_execution();
    assert_eq!(launches.len(), 3);
    let names: Vec<&str> = collection.tasks().iter().map(|t| t.name()).collect();
    assert_eq!(names, vec!["A", "B", "C"]);
    assert!(collection.tasks().iter().all(|t| !t.is_finished()));
    let ids: Vec<u64> = launches.iter().map(|l| l.id).collect();
    assert_eq!(ids, vec![0, 1, 2]);
}

#[test]
fn linear_collection_starts_next_after_reaping() {
    let mut collection: CollectionData<Exec, u32, u32, u32> = CollectionData::new("one", 3, linear());
    collection.push_task(Task::new("first", Caller::standard(1)));
    collection.push_task(Task::new("second", Caller::standard(2)));
    let (mut launches, _) = collection.handle_all();
    assert_eq!(launches.len(), 1);
    let (again, _) = collection.handle_all();
    assert!(again.is_empty());
    assert_eq!(collection.tasks().len(), 1);
    complete(launches.remove(0));
    let (none_yet, first_result) = collection.handle_all();
    assert!(none_yet.is_empty());
    assert_eq!(first_result.map(|(_, v)| v), Some(1));
    assert!(collection.tasks().is_empty());
    let (mut next, _) = collection.handle_all();
    assert_eq!(next.len(), 1);
    assert_eq!(collection.tasks()[0].name(), "second");
    complete(next.remove(0));
    let (_, second_result) = collection.handle_all();
    assert_eq!(second_result.map(|(_, v)| v), Some(2));
}

#[test]
fn progressing_task_counts_to_ten() {
    let mut collection: CollectionData<Exec, u32, u32, u32> = CollectionData::new("labels", 4, linear());
    collection.push_task(Task::new("label", Caller::progressing(42)));
    let (mut launches, _) = collection.handle_all();
    assert_eq!(launches.len(), 1);
    assert!(collection.tasks()[0].progress().is_some());
    let launch = launches.remove(0);
    if let Start::Progressing(_, shared) = &launch.start {
        assert_eq!(shared.set_total(10), Ok(()));
        for _ in 0..10 {
            assert!(shared.update(UnitProgress).is_ok());
        }
    } else {
        panic!("a progressing body must start with its progress handle");
    }
    complete(launch);
    let mut delivered = None;
    let mut counts = Vec::new();
    for _ in 0..10 {
        collection.handle_execution();
        let taken = collection.handle_progress();
        assert_eq!(taken.len(), 1);
        assert!(taken[0].is_some());
        counts.push(collection.tasks()[0].progress().unwrap().current());
        if let Some((_, v)) = collection.handle_results() {
            delivered = Some(v);
        }
    }
    assert_eq!(counts, (1..=10).collect::<Vec<u32>>());
    assert_eq!(collection.tasks()[0].progress().unwrap().total(), Some(10));
    assert_eq!(delivered, Some(42));
    collection.handle_deletion();
    assert!(collection.tasks().is_empty());
}

#[test]
fn cancelled_task_is_reaped_and_its_result_dropped() {
    let mut collection: CollectionData<Exec, u32, u32, u32> = CollectionData::new("c", 5, parallel());
    collection.push_task(Task::new("doomed", Caller::standard(9)));
    collection.push_task(Task::new("kept", Caller::standard(8)));
    let mut launches = collection.handle_execution();
    collection.cancel_task(0);
    assert!(collection.tasks()[0].is_finished());
    assert!(collection.tasks()[0].cancelled());
    assert!(collection.cancelled(0));
    assert!(!collection.cancelled(1));
    collection.handle_deletion();
    assert_eq!(collection.tasks().len(), 1);
    assert_eq!(collection.tasks()[0].name(), "kept");
    assert!(collection.cancelled(0));
    let kept = launches.remove(1);
    complete(launches.remove(0));
    assert!(collection.handle_results().is_none());
    complete(kept);
    assert_eq!(collection.handle_results(), Some((1, 8)));
    assert!(collection.handle_results().is_none());
}

#[test]
fn cancelled_before_reaping_result_is_dropped() {
    let mut collection: CollectionData<Exec, u32, u32, u32> = CollectionData::new("c", 6, linear());
    collection.push_task(Task::new("t", Caller::standard(3)));
    let mut launches = collection.handle_execution();
    complete(launches.remove(0));
    collection.cancel_task(0);
    assert_eq!(collection.accept_result((0, 3)), None);
    assert_eq!(collection.accept_result((7, 3)), Some((7, 3)));
    let (_, result) = collection.handle_all();
    assert!(result.is_none());
    assert!(collection.tasks().is_empty());
}

#[test]
fn attach_finds_running_task() {
    let mut collection: CollectionData<Exec, u32, u32, u32> = CollectionData::new("c", 7, linear());
    collection.push_task(Task::new("t", Caller::standard(3)));
    let launches = collection.handle_execution();
    let runtime = tokio::runtime::Runtime::new().unwrap();
    let handle = TaskHandle::new(runtime.spawn(async {}));
    assert!(!collection.attach(99, TaskHandle::new(runtime.spawn(async {}))));
    assert!(collection.attach(launches[0].id, handle));
    assert!(collection.tasks()[0].handle().is_some());
    collection.cancel_task(0);
    assert!(collection.tasks()[0].is_finished());
}

#[test]
fn manager_registers_each_key_once() {
    let mut manager: TaskManager<Exec, u32, u32, u32> = TaskManager::new();
    assert!(!manager.contains(10));
    assert!(manager.add_collection(10, "first", linear()));
    assert!(!manager.add_collection(10, "second", parallel()));
    assert!(manager.add_collection(11, "other", parallel()));
    let names: Vec<&str> = manager.collections().iter().map(|c| c.name()).collect();
    assert_eq!(names, vec!["first", "other"]);
    assert!(manager.contains(10));
    assert_eq!(manager.collection_mut(11).key(), 11);
    assert!(!manager.contains(12));
}

#[test]
fn push_to_unregistered_collection_fails() {
    let mut manager: TaskManager<Exec, u32, u32, u32> = TaskManager::new();
    assert!(manager.add_collection(1, "known", linear()));
    assert!(!manager.contains(2));
    manager.push_task(1, Task::new("found", Caller::standard(1)));
    let (launches, _) = manager.handle_collection(1);
    assert_eq!(launches.len(), 1);
    assert!(!manager.contains(2));
}

#[test]
fn manager_forwards_task_to_its_collection() {
    let mut manager: TaskManager<Exec, u32, u32, u32> = TaskManager::new();
    assert!(manager.add_collection(1, "a", parallel()));
    assert!(manager.add_collection(2, "b", parallel()));
    manager.push_task(2, Task::new("job", Caller::standard(4)));
    let (first, _) = manager.handle_collection(1);
    assert!(first.is_empty());
    let (mut second, _) = manager.handle_collection(2);
    assert_eq!(second.len(), 1);
    complete(second.remove(0));
    let (_, result) = manager.handle_collection(2);
    assert_eq!(result, Some((0, 4)));
}

#[test]
fn reap_removes_marked_and_cancelled_tasks() {
    let mut collection: CollectionData<Exec, u32, u32, u32> = CollectionData::new("r", 8, parallel());
    for name in ["A", "B", "C", "D"] {
        collection.push_task(Task::new(name, Caller::standard(0)));
    }
    let launches = collection.handle_execution();
    assert_eq!(launches.len(), 4);
    collection.cancel_task(1);
    collection.reap(&[false, false, true, false]);
    let names: Vec<&str> = collection.tasks().iter().map(|t| t.name()).collect();
    assert_eq!(names, vec!["A", "D"]);
    assert!(collection.cancelled(1));
    assert!(!collection.cancelled(2));
}

#[test]
fn deletion_keeps_unfinished_tasks_in_order() {
    let mut collection: CollectionData<Exec, u32, u32, u32> = CollectionData::new("d", 9, parallel());
    for name in ["A", "B", "C"] {
        collection.push_task(Task::new(name, Caller::standard(1)));
    }
    let mut launches = collection.handle_execution();
    complete(launches.remove(1));
    collection.handle_deletion();
    let names: Vec<&str> = collection.tasks().iter().map(|t| t.name()).collect();
    assert_eq!(names, vec!["A", "C"]);
    assert!(!collection.cancelled(1));
    assert_eq!(collection.handle_results(), Some((1, 1)));
}

#[test]
fn empty_collection_tick_does_nothing() {
    let mut collection: CollectionData<Exec, u32, u32, u32> = CollectionData::new("empty", 10, linear());
    let (launches, result) = collection.handle_all();
    assert!(launches.is_empty());
    assert!(result.is_none());
    assert!(collection.tasks().is_empty());
    assert_eq!(collection.name(), "empty");
    assert_eq!(collection.key(), 10);
}

#[test]
fn progress_pass_reports_taken_deltas() {
    let mut collection: CollectionData<Exec, u32, u32, u32> = CollectionData::new("p", 11, parallel());
    collection.push_task(Task::new("plain", Caller::standard(1)));
    collection.push_task(Task::new("tracked", Caller::progressing(2)));
    let launches = collection.handle_execution();
    if let Start::Progressing(_, shared) = &launches[1].start {
        assert!(shared.update(UnitProgress).is_ok());
    }
    let taken = collection.handle_progress();
    assert_eq!(taken.len(), 2);
    assert!(taken[0].is_none());
    assert!(taken[1].is_some());
    assert_eq!(collection.tasks()[1].progress().unwrap().current(), 1);
    let again = collection.handle_progress();
    assert!(again[1].is_none());
    assert_eq!(collection.tasks()[1].progress().unwrap().current(), 1);
}

#[test]
fn linear_collection_with_concrete_executor() {
    let mut collection: CollectionData<Linear<Body>, u32, u32, u32> =
        CollectionData::new("concrete", 12, Linear::new());
    collection.push_task(Task::new("a", Caller::standard(1)));
    collection.push_task(Task::new("b", Caller::standard(2)));
    let launches = collection.handle_execution();
    assert_eq!(launches.len(), 1);
    assert_eq!(collection.tasks().len(), 1);
    assert!(collection.handle_execution().is_empty());
}
