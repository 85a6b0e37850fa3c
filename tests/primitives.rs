use egui_task_manager::executors::{Linear, Parallel};
use egui_task_manager::{
    Caller, ExecutionPoll, Progress, SetOnce, SharedOnce, Task, TaskData, TaskExecutor,
    TaskProgress,
};

struct UnitProgress;

impl Progress for UnitProgress {
    fn applied(&self, current: u32) -> u32 {
        current + 1
    }

    fn apply(&self, current: &mut u32) {
        *current += 1;
    }
}

struct SetTo(u32);

impl Progress for SetTo {
    fn applied(&self, current: u32) -> u32 {
        self.0
    }

    fn apply(&self, current: &mut u32) {
        *current = self.0;
    }
}

struct Double;

impl Progress for Double {
    fn applied(&self, current: u32) -> u32 {
        current * 2
    }

    fn apply(&self, current: &mut u32) {
        *current *= 2;
    }
}

fn running(name: &str, id: u64) -> TaskData {
    let task: Task<u32, u32> = Task::new(name, Caller::standard(0));
    let (results, _receiver) = std::sync::mpsc::channel::<(u64, u32)>();
    let (data, _launch) = task.execute(id, results);
    data
}

#[test]
fn set_once_keeps_first_value() {
    let mut slot: SetOnce<u32> = SetOnce::new();
    assert_eq!(slot.get(), None);
    assert_eq!(slot.set(7), Ok(()));
    assert_eq!(slot.get(), Some(7));
    assert_eq!(slot.set(9), Err(7));
    assert_eq!(slot.get(), Some(7));
    assert_eq!(slot.set(7), Err(7));
}

#[test]
fn shared_once_is_one_slot_for_all_handles() {
    let a: SharedOnce<u32> = SharedOnce::new();
    let b = a.share();
    assert_eq!(b.get(), None);
    assert_eq!(a.set(3), Ok(()));
    assert_eq!(b.get(), Some(3));
    assert_eq!(b.set(4), Err(3));
    assert_eq!(a.get(), Some(3));
}

#[test]
fn set_total_twice_returns_first_total() {
    let progress = TaskProgress::new();
    let shared = progress.share();
    assert_eq!(shared.total(), None);
    assert_eq!(shared.set_total(10), Ok(()));
    assert_eq!(shared.set_total(20), Err(10));
    assert_eq!(progress.set_total(30), Err(10));
    assert_eq!(progress.total(), Some(10));
    assert_eq!(shared.total(), Some(10));
}

#[test]
fn set_total_from_poller_side_is_seen_by_task() {
    let progress = TaskProgress::new();
    let shared = progress.share();
    assert_eq!(progress.set_total(5), Ok(()));
    assert_eq!(shared.set_total(6), Err(5));
    assert_eq!(shared.total(), Some(5));
}

#[test]
fn new_progress_starts_at_zero() {
    let mut progress = TaskProgress::new();
    assert_eq!(progress.current(), 0);
    assert_eq!(progress.total(), None);
    assert!(progress.poll().is_none());
    assert_eq!(progress.current(), 0);
}

#[test]
fn deltas_apply_in_the_order_sent() {
    let mut progress = TaskProgress::new();
    let shared = progress.share();
    assert!(shared.update(UnitProgress).is_ok());
    assert!(shared.update(SetTo(5)).is_ok());
    assert!(shared.update(Double).is_ok());
    assert!(progress.poll().is_some());
    assert_eq!(progress.current(), 1);
    assert!(progress.poll().is_some());
    assert_eq!(progress.current(), 5);
    assert!(progress.poll().is_some());
    assert_eq!(progress.current(), 10);
    assert!(progress.poll().is_none());
    assert_eq!(progress.current(), 10);
}

#[test]
fn deltas_in_another_order_give_another_count() {
    let mut progress = TaskProgress::new();
    let shared = progress.share();
    assert!(shared.update(Double).is_ok());
    assert!(shared.update(SetTo(5)).is_ok());
    assert!(shared.update(UnitProgress).is_ok());
    while progress.poll().is_some() {}
    assert_eq!(progress.current(), 6);
}

#[test]
fn deltas_of_two_tasks_do_not_mix() {
    let mut first = TaskProgress::new();
    let mut second = TaskProgress::new();
    let a = first.share();
    let b = second.share();
    assert!(a.update(UnitProgress).is_ok());
    assert!(b.update(SetTo(40)).is_ok());
    assert!(a.update(UnitProgress).is_ok());
    while first.poll().is_some() {}
    while second.poll().is_some() {}
    assert_eq!(first.current(), 2);
    assert_eq!(second.current(), 40);
}

#[test]
fn sender_and_raw_sender_feed_the_same_counter() {
    let mut progress = TaskProgress::new();
    let shared = progress.share();
    let raw = shared.sender();
    let own = progress.sender();
    assert!(raw.send(Box::new(UnitProgress)).is_ok());
    assert!(own.send(Box::new(UnitProgress)).is_ok());
    while progress.poll().is_some() {}
    assert_eq!(progress.current(), 2);
    assert!(progress.receiver().try_recv().is_err());
}

#[test]
fn update_fails_once_the_poller_is_gone() {
    let progress = TaskProgress::new();
    let shared = progress.share();
    drop(progress);
    assert!(shared.update(UnitProgress).is_err());
}

#[test]
fn current_mut_changes_the_counter() {
    let mut progress = TaskProgress::new();
    *progress.current_mut() = 12;
    assert_eq!(progress.current(), 12);
}

#[test]
fn linear_waits_while_a_task_runs() {
    let mut linear: Linear<u32> = Linear::new();
    linear.push(1);
    linear.push(2);
    let busy = vec![running("busy", 0)];
    assert!(matches!(linear.poll(&busy), ExecutionPoll::Pending));
    assert_eq!(linear.len(), 2);
    assert!(matches!(linear.poll(&[]), ExecutionPoll::Ready(1)));
    assert!(matches!(linear.poll(&[]), ExecutionPoll::Ready(2)));
    assert!(matches!(linear.poll(&[]), ExecutionPoll::Pending));
    assert!(matches!(linear.poll(&busy), ExecutionPoll::Pending));
}

#[test]
fn parallel_admits_whatever_runs() {
    let mut parallel: Parallel<u32> = Parallel::default();
    parallel.push(1);
    parallel.push(2);
    parallel.push(3);
    let busy = vec![running("a", 0), running("b", 1)];
    assert!(matches!(parallel.poll(&busy), ExecutionPoll::Ready(1)));
    assert!(matches!(parallel.poll(&busy), ExecutionPoll::Ready(2)));
    assert!(matches!(parallel.poll(&[]), ExecutionPoll::Ready(3)));
    assert!(matches!(parallel.poll(&busy), ExecutionPoll::Pending));
    assert_eq!(parallel.len(), 0);
}

#[test]
fn task_keeps_its_name() {
    let task: Task<u32, u32> = Task::new("download", Caller::progressing(3));
    assert_eq!(task.name(), "download");
    let data = running("X", 4);
    assert_eq!(data.name(), "X");
    assert_eq!(data.task_id(), 4);
    assert!(!data.is_finished());
    assert!(data.handle().is_none());
    assert!(data.progress().is_none());
}
