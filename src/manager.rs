use crate::collection::CollectionData;
use crate::executors::TaskExecutor;
use crate::task::{Launch, Task};
use vstd::prelude::*;

verus! {

/// The registry of collections, each under its own key. Collections are added once and
/// never removed.
#[verifier::reject_recursive_types(F)]
#[verifier::reject_recursive_types(G)]
#[verifier::reject_recursive_types(V)]
pub struct TaskManager<E, F, G, V> {
    collections: Vec<CollectionData<E, F, G, V>>,
}

impl<E: TaskExecutor<Task<F, G>>, F, G, V> TaskManager<E, F, G, V> {
    /// The collections, in the order they were added.
    pub closed spec fn collections_spec(&self) -> Seq<CollectionData<E, F, G, V>> {
        self.collections@
    }

    /// No two collections share a key.
    pub open spec fn wf(&self) -> bool {
        forall|i: int, j: int|
            0 <= i < j < self.collections_spec().len() ==> (#[trigger] self.collections_spec()[i]).key_spec()
                != (#[trigger] self.collections_spec()[j]).key_spec()
    }

    /// Whether a collection is registered under `key`.
    pub open spec fn has(&self, key: u64) -> bool {
        exists|i: int|
            0 <= i < self.collections_spec().len() && (#[trigger] self.collections_spec()[i]).key_spec()
                == key
    }

    /// A registry with no collection.
    pub fn new() -> (r: Self)
        ensures
            r.wf(),
            r.collections_spec() == Seq::<CollectionData<E, F, G, V>>::empty(),
    {
        TaskManager { collections: Vec::new() }
    }

    /// Where the collection registered under `key` stands, if any.
    fn find(&self, key: u64) -> (r: Option<usize>)
        ensures
            r matches Option::Some(i) ==> i < self.collections_spec().len()
                && self.collections_spec()[i as int].key_spec() == key,
            r is None <==> !self.has(key),
    {
        let mut i: usize = 0;
        while i < self.collections.len()
            invariant
                0 <= i <= self.collections@.len(),
                forall|j: int| 0 <= j < i ==> (#[trigger] self.collections@[j]).key_spec() != key,
            decreases self.collections@.len() - i,
        {
            if self.collections[i].key() == key {
                return Some(i);
            }
            i += 1;
        }
        None
    }

    /// Whether a collection is registered under `key`.
    pub fn contains(&self, key: u64) -> (r: bool)
        ensures
            r == self.has(key),
    {
        self.find(key).is_some()
    }

    /// Registers a collection under `key`, unless one is registered there already, in which
    /// case nothing changes. Returns whether the collection was added.
    pub fn add_collection(
        &mut self,
        key: u64,
        name: &str,
        executor: E,
    ) -> (r: bool)
        requires
            old(self).wf(),
        ensures
            final(self).wf(),
            r == !old(self).has(key),
            final(self).has(key),
            !r ==> final(self).collections_spec() == old(self).collections_spec(),
            r ==> final(self).collections_spec().len() == old(self).collections_spec().len() + 1
                && final(self).collections_spec().drop_last() == old(self).collections_spec() && {
                let c = final(self).collections_spec().last();
                &&& c.key_spec() == key
                &&& c.executor() == executor
                &&& c.name_spec() == name@
                &&& c.tasks_spec() == Seq::<crate::task::TaskData>::empty()
                &&& c.reaped_cancelled() == Seq::<u64>::empty()
            },
    {
        if self.find(key).is_some() {
            return false;
        }
        self.collections.push(CollectionData::new(name, key, executor));
        proof {
            assert(self.collections_spec().drop_last() =~= old(self).collections_spec());
            let n = old(self).collections_spec().len();
            assert(self.collections_spec()[n as int].key_spec() == key);
            assert forall|i: int, j: int|
                0 <= i < j < self.collections_spec().len() implies (#[trigger] self.collections_spec()[i]).key_spec()
                != (#[trigger] self.collections_spec()[j]).key_spec() by {
                if j < n {
                    assert(old(self).collections_spec()[i] == self.collections_spec()[i]);
                    assert(old(self).collections_spec()[j] == self.collections_spec()[j]);
                } else {
                    assert(old(self).collections_spec()[i] == self.collections_spec()[i]);
                }
            }
        }
        true
    }

    /// Hands a task to the executor of the collection registered under `key`, which must be
    /// registered: pushing to an unknown collection is a usage error.
    pub fn push_task(&mut self, key: u64, task: Task<F, G>)
        requires
            old(self).wf(),
            old(self).has(key),
        ensures
            final(self).wf(),
            final(self).collections_spec().len() == old(self).collections_spec().len(),
            forall|i: int|
                0 <= i < final(self).collections_spec().len() ==> {
                    let c = #[trigger] final(self).collections_spec()[i];
                    let o = old(self).collections_spec()[i];
                    &&& c.key_spec() == o.key_spec()
                    &&& c.name_spec() == o.name_spec()
                    &&& c.tasks_spec() == o.tasks_spec()
                    &&& c.reaped_cancelled() == o.reaped_cancelled()
                    &&& (c.key_spec() == key ==> c.queue().to_multiset()
                        == o.queue().to_multiset().insert(task) && (o.executor().is_fifo()
                        ==> c.executor().is_fifo() && c.queue() == o.queue().push(task)))
                    &&& (c.key_spec() != key ==> c == o)
                },
    {
        let i = self.find(key).unwrap();
        self.collections[i].push_task(task);
        proof {
            assert forall|a: int, b: int|
                0 <= a < b < self.collections_spec().len() implies (#[trigger] self.collections_spec()[a]).key_spec()
                != (#[trigger] self.collections_spec()[b]).key_spec() by {
                assert(old(self).collections_spec()[a].key_spec()
                    != old(self).collections_spec()[b].key_spec());
            }
            assert forall|j: int|
                0 <= j < self.collections_spec().len() && j != i implies (
                #[trigger] self.collections_spec()[j]).key_spec() != key by {
                if j < i {
                    assert(old(self).collections_spec()[j].key_spec()
                        != old(self).collections_spec()[i as int].key_spec());
                } else {
                    assert(old(self).collections_spec()[i as int].key_spec()
                        != old(self).collections_spec()[j].key_spec());
                }
            }
        }
    }

    /// Runs one orchestration pass of the collection registered under `key` (see
    /// [`CollectionData::handle_all`]); the collection must be registered.
    pub fn handle_collection(&mut self, key: u64) -> (r: (Vec<Launch<F, G, V>>, Option<(u64, V)>))
        requires
            old(self).wf(),
            old(self).has(key),
        ensures
            final(self).wf(),
            final(self).collections_spec().len() == old(self).collections_spec().len(),
            forall|i: int|
                0 <= i < final(self).collections_spec().len() ==> {
                    let c = #[trigger] final(self).collections_spec()[i];
                    let o = old(self).collections_spec()[i];
                    &&& c.key_spec() == o.key_spec()
                    &&& c.name_spec() == o.name_spec()
                    &&& (c.key_spec() != key ==> c == o)
                    &&& (c.key_spec() == key ==> CollectionData::ticked(o, c, (r.0@, r.1))
                        && (o.admits_more() ==> r.0@.len() > 0) && (r.1 matches Option::Some(
                        (id, _),
                    ) ==> !o.is_cancelled(id)))
                },
    {
        let i = self.find(key).unwrap();
        let r = self.collections[i].handle_all();
        proof {
            assert forall|a: int, b: int|
                0 <= a < b < self.collections_spec().len() implies (#[trigger] self.collections_spec()[a]).key_spec()
                != (#[trigger] self.collections_spec()[b]).key_spec() by {
                assert(old(self).collections_spec()[a].key_spec()
                    != old(self).collections_spec()[b].key_spec());
            }
            assert forall|j: int|
                0 <= j < self.collections_spec().len() && j != i implies (
                #[trigger] self.collections_spec()[j]).key_spec() != key by {
                if j < i {
                    assert(old(self).collections_spec()[j].key_spec()
                        != old(self).collections_spec()[i as int].key_spec());
                } else {
                    assert(old(self).collections_spec()[i as int].key_spec()
                        != old(self).collections_spec()[j].key_spec());
                }
            }
        }
        r
    }

    /// The collections, in the order they were added.
    pub fn collections(&self) -> (r: &[CollectionData<E, F, G, V>])
        ensures
            r@ == self.collections_spec(),
    {
        self.collections.as_slice()
    }

    /// The collection registered under `key`, which must be registered. The registry afterwards
    /// holds the collection as the caller leaves it; it stays well formed as long as the
    /// caller keeps the key, which every method of [`CollectionData`] does.
    pub fn collection_mut(&mut self, key: u64) -> (r: &mut CollectionData<E, F, G, V>)
        requires
            old(self).wf(),
            old(self).has(key),
        ensures
            exists|i: int|
                0 <= i < old(self).collections_spec().len() && (#[trigger] old(
                    self,
                ).collections_spec()[i]).key_spec() == key && *r == old(self).collections_spec()[i]
                    && final(self).collections_spec() == old(self).collections_spec().update(
                    i,
                    *final(r),
                ),
            final(r).key_spec() == key ==> final(self).wf(),
    {
        let i = self.find(key).unwrap();
        let r = &mut self.collections[i];
        r
    }
}

} // verus!
