use std::cell::RefCell;
use std::rc::Rc;
use terms::setup::refresh;
use terms::util::{hand_out, CallbackFuture, ExecState, FutureWithReturn};

#[test]
fn one_item_per_resume() {
    let fut = FutureWithReturn { item: Rc::new(RefCell::new(None)) };
    let mut state = ExecState::RunOnce;
    assert_eq!(fut.poll_item(&mut state), None);
    assert_eq!(state, ExecState::RunOnce);
    *fut.item.borrow_mut() = Some(5);
    assert_eq!(fut.poll_item(&mut state), Some(5));
    assert_eq!(state, ExecState::Waiting);
    *fut.item.borrow_mut() = Some(6);
    assert_eq!(fut.poll_item(&mut state), None);
    assert_eq!(*fut.item.borrow(), Some(6));
}

#[test]
fn loader_is_handed_out_once() {
    let mut fut: CallbackFuture<u32, fn(u32) -> u32> = CallbackFuture::new(|x| x + 1);
    let loader = fut.take_loader().expect("first poll runs the loader");
    assert_eq!(loader(1), 2);
    assert!(fut.take_loader().is_none());
    assert_eq!(*fut.result_slot().lock().unwrap(), None);
}

#[test]
fn ready_future_holds_value() {
    let mut fut: CallbackFuture<&str, fn()> = CallbackFuture::ready("Test");
    assert!(fut.take_loader().is_none());
    assert_eq!(fut.result_slot().lock().unwrap().take(), Some("Test"));
}

#[test]
fn refresh_succeeds() {
    assert!(refresh().is_ok());
}

#[test]
fn handing_out_an_item_ends_the_resume() {
    let mut state = ExecState::RunOnce;
    assert_eq!(hand_out(&mut state, Some(3)), Some(3));
    assert_eq!(state, ExecState::Waiting);
    let mut state = ExecState::RunOnce;
    assert_eq!(hand_out::<i32>(&mut state, None), None);
    assert_eq!(state, ExecState::RunOnce);
}

#[test]
fn result_slot_is_the_same_each_time() {
    let fut: CallbackFuture<u8, fn()> = CallbackFuture::ready(1);
    assert!(std::sync::Arc::ptr_eq(fut.result_slot(), fut.result_slot()));
}

#[test]
fn busy_cell_gives_nothing() {
    let fut = FutureWithReturn { item: Rc::new(RefCell::new(Some(1))) };
    let mut state = ExecState::RunOnce;
    let held = fut.item.borrow();
    assert_eq!(fut.poll_item(&mut state), None);
    assert_eq!(state, ExecState::RunOnce);
    drop(held);
    assert_eq!(fut.poll_item(&mut state), Some(1));
    assert_eq!(state, ExecState::Waiting);
}

#[test]
fn later_polls_of_a_resume_take_nothing() {
    let fut = FutureWithReturn { item: Rc::new(RefCell::new(Some(1))) };
    let mut state = ExecState::RunOnce;
    assert_eq!(fut.poll_item(&mut state), Some(1));
    *fut.item.borrow_mut() = Some(2);
    for _ in 0..3 {
        assert_eq!(fut.poll_item(&mut state), None);
        assert_eq!(state, ExecState::Waiting);
    }
    assert_eq!(*fut.item.borrow(), Some(2));
}
