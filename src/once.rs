use std::sync::Arc;
use vstd::prelude::*;
use vstd::rwlock::{RwLock, RwLockPredicate};

verus! {

/// A single-assignment slot: it starts unset, and the first value written stays for good.
pub struct SetOnce<T> {
    value: Option<T>,
}

/// What writing `v` into a slot that holds `cur` does: an unset slot takes `v`; a set slot
/// keeps its value and reports it back as the error.
pub open spec fn set_outcome<T>(cur: Option<T>, v: T) -> (Option<T>, Result<(), T>) {
    match cur {
        Option::None => (Option::Some(v), Result::Ok(())),
        Option::Some(x) => (Option::Some(x), Result::Err(x)),
    }
}

impl<T> View for SetOnce<T> {
    type V = Option<T>;

    closed spec fn view(&self) -> Option<T> {
        self.value
    }
}

impl<T: Copy> SetOnce<T> {
    /// An unset slot.
    pub fn new() -> (r: Self)
        ensures
            r@ is None,
    {
        SetOnce { value: None }
    }

    /// Writes `v` if the slot is unset; otherwise leaves it as it is and returns the value it
    /// already holds.
    pub fn set(&mut self, v: T) -> (r: Result<(), T>)
        ensures
            (final(self)@, r) == set_outcome(old(self)@, v),
    {
        match self.value {
            Some(x) => Err(x),
            None => {
                self.value = Some(v);
                Ok(())
            },
        }
    }

    /// The value written, if any.
    pub fn get(&self) -> (r: Option<T>)
        ensures
            r == self@,
    {
        self.value
    }
}

/// Once a slot has been written, a further write with any value changes nothing and
/// reports the value written first.
pub proof fn lemma_second_set_keeps_first<T>(cur: Option<T>, first: T, second: T)
    requires
        cur is None,
    ensures
        ({
            let (after_first, r1) = set_outcome(cur, first);
            let (after_second, r2) = set_outcome(after_first, second);
            &&& r1 == Result::<(), T>::Ok(())
            &&& after_first == Option::Some(first)
            &&& after_second == after_first
            &&& r2 == Result::<(), T>::Err(first)
        }),
{
}

/// The lock of a shared slot admits every state of the slot.
pub struct AnyState;

impl<T> RwLockPredicate<SetOnce<T>> for AnyState {
    open spec fn inv(self, v: SetOnce<T>) -> bool {
        true
    }
}

/// A [`SetOnce`] slot shared between threads: every handle made by [`SharedOnce::share`]
/// reads and writes the same slot. Each read or write runs the [`SetOnce`] operation under a
/// lock. Since another handle may write between two calls, what one call returns is stated
/// by [`SetOnce::set`] and [`set_outcome`] for the state the slot had when the lock was taken.
#[verifier::reject_recursive_types(T)]
pub struct SharedOnce<T> {
    cell: Arc<RwLock<SetOnce<T>, AnyState>>,
}

impl<T> SharedOnce<T> {
    /// Whether two handles read and write the same slot.
    pub closed spec fn same_slot(&self, other: &Self) -> bool {
        self.cell == other.cell
    }
}

impl<T: Copy> SharedOnce<T> {
    /// A new, unset slot.
    pub fn new() -> Self {
        SharedOnce { cell: Arc::new(RwLock::new(SetOnce::new(), Ghost(AnyState))) }
    }

    /// Writes `v` if no handle of this slot has written it yet; otherwise returns the value
    /// that is there. The write and the test happen under one lock, so of two racing writers
    /// exactly one succeeds.
    pub fn set(&self, v: T) -> (r: Result<(), T>) {
        let (mut slot, handle) = self.cell.acquire_write();
        let r = slot.set(v);
        handle.release_write(slot);
        r
    }

    /// The value written, if any.
    pub fn get(&self) -> Option<T> {
        let handle = self.cell.acquire_read();
        let r = handle.borrow().get();
        handle.release_read();
        r
    }

    /// Another handle of the same slot.
    pub fn share(&self) -> (r: Self)
        ensures
            r.same_slot(self),
    {
        SharedOnce { cell: self.cell.clone() }
    }
}

} // verus!
