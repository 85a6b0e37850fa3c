use std::future::Future;
use std::pin::Pin;
use std::time::Duration;

use egui_task_manager::executors::Linear;
use egui_task_manager::{
    Caller, CollectionData, Launch, Progress, Start, Task, TaskHandle, TaskProgressShared,
};

type Fut = Pin<Box<dyn Future<Output = u32> + Send>>;
type Fun = Box<dyn FnOnce(TaskProgressShared) -> Fut>;
type Body = Task<Fut, Fun>;

struct UnitProgress;

impl Progress for UnitProgress {
    fn applied(&self, current: u32) -> u32 {
        current + 1
    }

    fn apply(&self, current: &mut u32) {
        *current += 1;
    }
}

fn spawn(
    runtime: &tokio::runtime::Runtime,
    collection: &mut CollectionData<Linear<Body>, Fut, Fun, u32>,
    launch: Launch<Fut, Fun, u32>,
) {
    let body = match launch.start {
        Start::Standard(fut) => fut,
        Start::Progressing(fun, shared) => fun(shared),
    };
    let results = launch.results;
    let finished = launch.finished;
    let id = launch.id;
    let handle = runtime.spawn(async move {
        let value = body.await;
        let _ = results.send((id, value));
        finished.finish();
    });
    assert!(collection.attach(id, TaskHandle::new(handle)));
}

#[test]
fn spawned_bodies_deliver_through_the_runtime() {
    let runtime = tokio::runtime::Runtime::new().unwrap();
    let mut collection: CollectionData<Linear<Body>, Fut, Fun, u32> =
        CollectionData::new("runtime", 1, Linear::new());
    collection.push_task(Task::new("X", Caller::standard(Box::pin(async { 5u32 }) as Fut)));
    let progressing: Fun = Box::new(|progress: TaskProgressShared| {
        Box::pin(async move {
            let _ = progress.set_total(10);
            for _ in 0..10 {
                let _ = progress.update(UnitProgress);
            }
            7u32
        }) as Fut
    });
    collection.push_task(Task::new("Y", Caller::progressing(progressing)));
    let mut seen = Vec::new();
    for _ in 0..400 {
        let (launches, result) = collection.handle_all();
        for launch in launches {
            spawn(&runtime, &mut collection, launch);
        }
        if let Some((_, value)) = result {
            seen.push(value);
        }
        if seen.len() == 2 && collection.tasks().is_empty() {
            break;
        }
        runtime.block_on(async { tokio::time::sleep(Duration::from_millis(5)).await });
    }
    assert_eq!(seen, vec![5, 7]);
    assert!(collection.tasks().is_empty());
}
