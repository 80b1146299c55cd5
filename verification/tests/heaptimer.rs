use sio::heaptimer::HeapTimer;
use sio::{Context, Time, Timer, TimerTask};
use std::cell::RefCell;
use std::rc::Rc;

struct Push {
    num: u64,
    log: Rc<RefCell<Vec<(u64, u64)>>>,
}

impl TimerTask for Push {
    fn run(&mut self, _ctx: &Context, time: Time) {
        self.log.borrow_mut().push((self.num, time.ns));
    }
}

#[test]
fn heap_timer_runs_due_tasks_in_time_order() {
    let log = Rc::new(RefCell::new(Vec::new()));
    let mut timer = HeapTimer::new();
    for (num, at) in [(4u64, 40u64), (1, 10), (3, 30), (2, 20), (5, 50)] {
        timer.schedule(Push { num, log: log.clone() }, Time::new(at));
    }
    assert_eq!(timer.peek_time(), Some(Time::new(10)));
    let ctx = Context::new(1);
    timer.process(&ctx, Time::new(35));
    assert_eq!(*log.borrow(), vec![(1, 35), (2, 35), (3, 35)]);
    assert_eq!(timer.peek_time(), Some(Time::new(40)));
    timer.process(&ctx, Time::new(100));
    assert_eq!(log.borrow().len(), 5);
    assert_eq!(timer.peek_time(), None);
}

#[test]
fn heap_timer_same_instant_first_come_first_run() {
    let log = Rc::new(RefCell::new(Vec::new()));
    let mut timer = HeapTimer::new();
    for num in 0..6u64 {
        timer.schedule(Push { num, log: log.clone() }, Time::new(7));
    }
    timer.schedule(Push { num: 99, log: log.clone() }, Time::new(8));
    timer.process(&Context::new(0), Time::new(7));
    let nums: Vec<u64> = log.borrow().iter().map(|p| p.0).collect();
    assert_eq!(nums, vec![0, 1, 2, 3, 4, 5]);
    assert_eq!(timer.peek_time(), Some(Time::new(8)));
}

#[test]
fn heap_timer_processing_empty_queue_does_nothing() {
    let mut timer: HeapTimer<Push> = HeapTimer::new();
    timer.process(&Context::new(0), Time::new(1000));
    assert_eq!(timer.peek_time(), None);
    assert!(timer.pop_due(Time::new(1000)).is_none());
}
