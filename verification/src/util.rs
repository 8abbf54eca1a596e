//! Futures driven by hand: the state of one resume, an adapter from a
//! callback-style operation to a future, and a future whose item is put into a
//! shared cell from outside.
use vstd::prelude::*;
use std::cell::{RefCell, RefMut};
use std::rc::Rc;
use std::sync::{Arc, Mutex};

verus! {

/// Where one resume of a hand-driven future stands.
#[derive(Debug, Clone, Copy, PartialEq, Eq, Structural)]
pub enum ExecState {
    /// Nothing has been handed out during this resume yet.
    RunOnce,
    /// An item was handed out; everything else waits for the next resume.
    Waiting,
}

#[verifier::external_type_specification]
#[verifier::external_body]
#[verifier::reject_recursive_types(T)]
pub struct ExMutex<T: ?Sized>(Mutex<T>);

/// `std::sync::Mutex::new`. A mutex is opaque here: what it holds later
/// depends on the other threads that lock it, so nothing is stated of it.
#[verifier::external_body]
fn new_mutex<T>(value: T) -> Mutex<T> {
    Mutex::new(value)
}

/// An adapter between callbacks and futures: the loader `L` starts an
/// operation that reports its result through a callback; the first poll
/// hands the loader out to be run with that callback, and later polls look
/// for the result in the shared slot.
#[verifier::reject_recursive_types(T)]
pub struct CallbackFuture<T, L> {
    loader: Option<L>,
    result: Arc<Mutex<Option<T>>>,
}

impl<T, L> CallbackFuture<T, L> {
    /// The loader that has not been handed out yet, if any.
    pub closed spec fn pending_loader(&self) -> Option<L> {
        self.loader
    }

    /// A future that runs `loader` on its first poll.
    pub fn new(loader: L) -> (r: CallbackFuture<T, L>)
        ensures
            r.pending_loader() == Some(loader),
    {
        CallbackFuture { loader: Some(loader), result: Arc::new(new_mutex(None)) }
    }

    /// A future whose result is `value` already; it has no loader to run.
    pub fn ready(value: T) -> (r: CallbackFuture<T, L>)
        ensures
            r.pending_loader() is None,
    {
        CallbackFuture { loader: None, result: Arc::new(new_mutex(Some(value))) }
    }

    /// Hands out the loader if it has not been handed out yet; after this
    /// call there is none left, so the loader runs at most once.
    pub fn take_loader(&mut self) -> (r: Option<L>)
        ensures
            r == old(self).pending_loader(),
            final(self).pending_loader() is None,
    {
        self.loader.take()
    }

    /// The shared slot of this future, into which the callback puts the
    /// result; it is made once, with the future, and never replaced.
    pub closed spec fn slot(&self) -> Arc<Mutex<Option<T>>> {
        self.result
    }

    /// The slot into which the callback puts the result: the future's own,
    /// the same one on every call.
    pub fn result_slot(&self) -> (r: &Arc<Mutex<Option<T>>>)
        ensures
            *r == self.slot(),
    {
        &self.result
    }
}

#[verifier::external_type_specification]
#[verifier::external_body]
#[verifier::reject_recursive_types(T)]
pub struct ExRefCell<T: ?Sized>(RefCell<T>);

#[verifier::external_type_specification]
#[verifier::external_body]
#[verifier::reject_recursive_types(T)]
pub struct ExRefMut<'b, T: ?Sized + 'b>(RefMut<'b, T>);

/// `RefCell::try_borrow_mut`: the cell's contents, borrowed for writing, or
/// `None` when the cell is borrowed elsewhere at the time. Which of the two
/// happens depends on the rest of the program, so nothing is stated.
#[verifier::external_body]
fn try_borrow_slot<'a, T>(cell: &'a RefCell<Option<T>>) -> Option<RefMut<'a, Option<T>>> {
    match cell.try_borrow_mut() {
        Ok(slot) => Some(slot),
        Err(_) => None,
    }
}

/// `Option::take` on the borrowed contents of a cell: the item, if any,
/// leaving the cell empty. The contents are shared, so nothing is stated of
/// them.
#[verifier::external_body]
fn take_borrowed<T>(slot: &mut RefMut<'_, Option<T>>) -> Option<T> {
    slot.take()
}

/// The item that someone put in the shared cell, if any, leaving it empty;
/// nothing, with the cell left as it is, when the cell is borrowed elsewhere.
fn take_shared<T>(cell: &RefCell<Option<T>>) -> Option<T> {
    match try_borrow_slot(cell) {
        Some(mut slot) => take_borrowed(&mut slot),
        None => None,
    }
}

/// A future whose item is put into a shared cell from outside and which is
/// driven one resume at a time.
#[verifier::reject_recursive_types(T)]
pub struct FutureWithReturn<T> {
    pub item: Rc<RefCell<Option<T>>>,
}

/// The rest of a poll once `item` has been taken from the cell during a
/// resume: the item is handed out as it is, and a resume that handed one out
/// waits from then on; when the cell was empty the state stays as it was.
pub fn hand_out<T>(state: &mut ExecState, item: Option<T>) -> (r: Option<T>)
    ensures
        r == item,
        item is Some ==> *final(state) == ExecState::Waiting,
        item is None ==> *final(state) == *old(state),
{
    if item.is_some() {
        *state = ExecState::Waiting;
    }
    item
}

/// What one poll may do during a resume that stands at `before`: while
/// waiting nothing is handed out and the resume keeps waiting; otherwise the
/// resume waits afterwards exactly when an item was handed out.
pub open spec fn poll_step(before: ExecState, handed_out: bool, after: ExecState) -> bool {
    if before == ExecState::Waiting {
        !handed_out && after == ExecState::Waiting
    } else {
        handed_out <==> after == ExecState::Waiting
    }
}

impl<T> FutureWithReturn<T> {
    /// One poll during a resume in state `state`: while waiting nothing is
    /// handed out and the cell is not touched; otherwise the item in the
    /// cell, if there is one, is handed out and the resume then waits. A cell
    /// that is empty, or borrowed elsewhere at the time, gives nothing and
    /// leaves the state as it was.
    pub fn poll_item(&self, state: &mut ExecState) -> (r: Option<T>)
        ensures
            poll_step(*old(state), r is Some, *final(state)),
    {
        if *state == ExecState::Waiting {
            return None;
        }
        let item = take_shared(&self.item);
        hand_out(state, item)
    }
}

proof fn lemma_waiting_stays(states: Seq<ExecState>, handed: Seq<bool>, k: int, m: int)
    requires
        states.len() == handed.len() + 1,
        forall|i: int| 0 <= i < handed.len() ==> poll_step(#[trigger] states[i], handed[i], states[i + 1]),
        0 <= k <= m < states.len(),
        states[k] == ExecState::Waiting,
    ensures
        states[m] == ExecState::Waiting,
    decreases m - k,
{
    if m > k {
        lemma_waiting_stays(states, handed, k, m - 1);
        assert(poll_step(states[m - 1], handed[m - 1], states[m]));
    }
}

/// Over any run of polls that share one resume state, starting from
/// `RunOnce`: at most one poll hands an item out, and from the poll that
/// does, the resume waits, so every later poll hands out nothing.
/// `states[i]` is the state before poll `i` and `handed[i]` whether it
/// handed an item out.
pub proof fn lemma_one_item_per_resume(states: Seq<ExecState>, handed: Seq<bool>)
    requires
        states.len() == handed.len() + 1,
        states[0] == ExecState::RunOnce,
        forall|i: int| 0 <= i < handed.len() ==> poll_step(#[trigger] states[i], handed[i], states[i + 1]),
    ensures
        forall|i: int, j: int| 0 <= i < j < handed.len() && handed[i] ==> !handed[j],
        forall|i: int, k: int| 0 <= i < handed.len() && handed[i] && i < k < states.len() ==> states[k]
            == ExecState::Waiting,
{
    assert forall|i: int, k: int| 0 <= i < handed.len() && handed[i] && i < k < states.len() implies states[k]
        == ExecState::Waiting by {
        assert(poll_step(states[i], handed[i], states[i + 1]));
        lemma_waiting_stays(states, handed, i + 1, k);
    }
    assert forall|i: int, j: int| 0 <= i < j < handed.len() && handed[i] implies !handed[j] by {
        assert(poll_step(states[i], handed[i], states[i + 1]));
        lemma_waiting_stays(states, handed, i + 1, j);
        assert(poll_step(states[j], handed[j], states[j + 1]));
    }
}

} // verus!
