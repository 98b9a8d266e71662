use threadpool::{Message, Outcome, ResultSlot, ThreadPool, Worker};

#[test]
fn a_value_is_received_exactly_once() {
    let mut slot = ResultSlot::new();
    assert_eq!(slot, ResultSlot::Empty);
    assert!(slot.is_empty());
    assert!(!slot.is_ready());
    assert_eq!(slot.send(4), Ok(()));
    assert_eq!(slot, ResultSlot::Ready(4));
    assert!(slot.is_ready());
    assert_eq!(slot.recv(), Some(4));
    assert_eq!(slot, ResultSlot::Taken);
    assert_eq!(slot.recv(), None);
    assert_eq!(slot, ResultSlot::Taken);
    assert!(!slot.is_ready());
    assert!(!slot.is_empty());
}

#[test]
fn nothing_is_received_before_it_was_sent() {
    let mut slot: ResultSlot<u8> = ResultSlot::new();
    assert_eq!(slot.recv(), None);
    assert_eq!(slot, ResultSlot::Empty);
    assert_eq!(slot.send(9), Ok(()));
    assert_eq!(slot.recv(), Some(9));
}

#[test]
fn a_second_send_is_refused() {
    let mut slot = ResultSlot::new();
    assert_eq!(slot.send(1), Ok(()));
    assert_eq!(slot.send(2), Err(2));
    assert_eq!(slot, ResultSlot::Ready(1));
    assert_eq!(slot.recv(), Some(1));
    assert_eq!(slot.send(3), Err(3));
    assert_eq!(slot, ResultSlot::Taken);
}

#[test]
fn a_send_to_a_receiver_that_left_returns_the_value() {
    let mut slot = ResultSlot::new();
    slot.close();
    assert_eq!(slot, ResultSlot::Closed);
    assert_eq!(slot.send("late"), Err("late"));
    assert_eq!(slot, ResultSlot::Closed);
    assert_eq!(slot.recv(), None);
}

#[test]
fn closing_drops_a_waiting_value() {
    let mut slot = ResultSlot::new();
    assert_eq!(slot.send(5), Ok(()));
    slot.close();
    assert_eq!(slot, ResultSlot::Closed);
    assert_eq!(slot.recv(), None);
    assert!(!slot.is_ready());
}

#[test]
fn a_sender_that_leaves_early_closes_the_channel() {
    let mut slot: ResultSlot<u8> = ResultSlot::new();
    assert!(!slot.is_closed());
    slot.abandon();
    assert_eq!(slot, ResultSlot::Closed);
    assert!(slot.is_closed());
    assert_eq!(slot.recv(), None);
    assert_eq!(slot.send(1), Err(1));
}

#[test]
fn a_sender_that_leaves_after_sending_loses_nothing() {
    let mut slot = ResultSlot::new();
    assert_eq!(slot.send(8), Ok(()));
    slot.abandon();
    assert_eq!(slot, ResultSlot::Ready(8));
    assert!(!slot.is_closed());
    assert_eq!(slot.recv(), Some(8));
    slot.abandon();
    assert_eq!(slot, ResultSlot::Taken);
}

/// Runs the job that worker `id` is handed and delivers its value on the slot
/// whose index came with it.
fn work_once<R>(
    pool: &mut ThreadPool<Box<dyn FnOnce() -> R>, usize>,
    id: usize,
    slots: &mut Vec<ResultSlot<R>>,
) {
    let message = pool.receive(id).unwrap();
    match Worker::process(message) {
        Outcome::Finished(value, Some(to)) => assert!(slots[to].send(value).is_ok()),
        _ => panic!("a job with a reply handle was expected"),
    }
}

#[test]
fn one_plus_three_yields_four() {
    let mut pool: ThreadPool<Box<dyn FnOnce() -> i32>, usize> = ThreadPool::new(4, 1);
    let mut slots = vec![ResultSlot::new()];
    pool.execute_with_reply(Box::new(|| 1 + 3), 0);
    work_once(&mut pool, 2, &mut slots);
    assert_eq!(slots[0].recv(), Some(4));
    assert_eq!(slots[0].recv(), None);
}

#[test]
fn hello_and_world_are_joined_by_a_space() {
    let mut pool: ThreadPool<Box<dyn FnOnce() -> String>, usize> = ThreadPool::new(1, 1);
    let mut slots = vec![ResultSlot::new()];
    let hello = String::from("Hello");
    let world = String::from("World");
    pool.execute_with_reply(Box::new(move || format!("{} {}", hello, world)), 0);
    work_once(&mut pool, 0, &mut slots);
    assert_eq!(slots[0].recv(), Some(String::from("Hello World")));
}

#[test]
fn each_handle_yields_its_own_job_whoever_ran_it() {
    for shift in 0..3 {
        let mut pool: ThreadPool<Box<dyn FnOnce() -> u64>, usize> = ThreadPool::new(3, 1);
        let mut slots = Vec::new();
        for n in 0..6u64 {
            slots.push(ResultSlot::new());
            pool.execute_with_reply(Box::new(move || n * n), n as usize);
        }
        for turn in 0..6 {
            work_once(&mut pool, (turn + shift) % 3, &mut slots);
        }
        for n in 0..6u64 {
            assert_eq!(slots[n as usize].recv(), Some(n * n));
            assert_eq!(slots[n as usize].recv(), None);
        }
    }
}

#[test]
fn a_stop_order_carries_no_reply() {
    let mut pool: ThreadPool<Box<dyn FnOnce() -> u8>, usize> = ThreadPool::new(1, 1);
    pool.join();
    let message = pool.receive(0).unwrap();
    assert!(matches!(message, Message::Terminate));
    assert!(!message.is_job());
    assert_eq!(Worker::process(message), Outcome::Exit);
}
