use timer_future::delay::TimerFuture;
use timer_future::executor::Executor;
use timer_future::future::Poll;
use timer_future::hub::TimerHub;
use timer_future::job::DelayJob;
use timer_future::queue::{QueueOverflow, ReadyQueue};

#[test]
fn delay_ready_only_after_duration() {
    let mut hub = TimerHub::new();
    let mut d = TimerFuture::new(&mut hub, 7);
    assert_eq!(d.created_at, 0);
    assert_eq!(d.duration, 7);

    let r = d.poll_delay(&mut hub, 3);
    assert!(matches!(r, Poll::Pending));
    // the wake handle was recorded into the shared entry
    assert_eq!(hub.timers[0].waker, Some(3));
    assert!(!hub.timers[0].completed);

    // the timer elapses: completion flag set, handle taken to be invoked once
    hub.advance_to(7);
    let w = hub.fire(0);
    assert_eq!(w, Some(3));
    assert!(hub.timers[0].completed);
    assert_eq!(hub.timers[0].waker, None);

    let r2 = d.poll_delay(&mut hub, 3);
    assert!(matches!(r2, Poll::Ready(())));
    assert!(hub.now >= 7);
}

#[test]
fn zero_duration_delay_becomes_ready_on_next_poll() {
    let mut hub = TimerHub::new();
    let mut d = TimerFuture::new(&mut hub, 0);
    // even a zero-duration delay is pending until its timer fires
    let r = d.poll_delay(&mut hub, 0);
    assert!(matches!(r, Poll::Pending));
    // the deadline has already passed, so the timer can fire without waiting
    let w = hub.fire(0);
    assert_eq!(w, Some(0));
    let r2 = d.poll_delay(&mut hub, 0);
    assert!(matches!(r2, Poll::Ready(())));
    assert_eq!(hub.now, 0);
}

#[test]
fn repoll_before_elapse_overwrites_wake_handle() {
    let mut hub = TimerHub::new();
    let t = hub.create(100);
    hub.set_waker(t, 1);
    assert_eq!(hub.timers[t].waker, Some(1));
    hub.set_waker(t, 2);
    // overwritten, not accumulated
    assert_eq!(hub.timers[t].waker, Some(2));
    assert_eq!(hub.timers.len(), 1);
}

#[test]
fn ready_queue_is_fifo_and_bounded() {
    let mut q = ReadyQueue::new(3);
    assert_eq!(q.push(1), Ok(()));
    assert_eq!(q.push(2), Ok(()));
    assert_eq!(q.push(3), Ok(()));
    assert_eq!(q.push(4), Err(QueueOverflow));
    assert_eq!(q.len(), 3);
    assert_eq!(q.pop(), Some(1));
    assert_eq!(q.pop(), Some(2));
    assert_eq!(q.pop(), Some(3));
    assert_eq!(q.pop(), None);
}

#[test]
fn executor_runs_all_spawned_jobs_to_completion() {
    let mut e: Executor<DelayJob> = Executor::new(100);
    let a = e.spawn(DelayJob::new(50)).unwrap();
    let b = e.spawn(DelayJob::new(10)).unwrap();
    let c = e.spawn(DelayJob::new(0)).unwrap();
    assert_eq!((a, b, c), (0, 1, 2));

    e.run();

    assert_eq!(e.queue.items.len(), 0);
    for (i, d) in [(0usize, 50u64), (1, 10), (2, 0)] {
        assert!(e.tasks[i].slot.is_none(), "task {i} not finished");
        let (start, finish) = e.tasks[i].output.expect("output recorded");
        assert!(finish >= start + d, "task {i} finished early");
    }
}

#[test]
fn run_waits_for_the_longest_delay() {
    let mut e: Executor<DelayJob> = Executor::new(10);
    e.spawn(DelayJob::new(30)).unwrap();
    e.spawn(DelayJob::new(80)).unwrap();
    e.run();
    assert!(e.hub.now >= 80);
    let (s0, f0) = e.tasks[0].output.unwrap();
    let (s1, f1) = e.tasks[1].output.unwrap();
    assert_eq!((s0, s1), (0, 0));
    assert_eq!(f0, 30);
    assert_eq!(f1, 80);
}

#[test]
fn repolling_a_finished_task_is_a_noop() {
    let mut e: Executor<DelayJob> = Executor::new(10);
    e.spawn(DelayJob::new(5)).unwrap();
    e.run();
    assert!(e.tasks[0].slot.is_none());
    let output = e.tasks[0].output;
    let now = e.hub.now;
    let timers = e.hub.timers.len();

    e.poll_task(0);

    // the computation was not re-invoked and nothing was enqueued
    assert!(e.tasks[0].slot.is_none());
    assert_eq!(e.tasks[0].output, output);
    assert_eq!(e.queue.items.len(), 0);
    assert_eq!(e.hub.now, now);
    assert_eq!(e.hub.timers.len(), timers);
}

#[test]
fn double_wake_leaves_two_redundant_entries_that_resolve_harmlessly() {
    let mut e: Executor<DelayJob> = Executor::new(10);
    e.spawn(DelayJob::new(5)).unwrap();
    e.run();
    let output = e.tasks[0].output;

    // wake twice before the task is polled again: two redundant entries
    assert_eq!(e.wake_by_ref(0), Ok(()));
    assert_eq!(e.wake_by_ref(0), Ok(()));
    assert_eq!(e.queue.items, vec![0, 0]);

    // both resolve harmlessly: each poll observes an empty slot and no-ops
    e.run();
    assert_eq!(e.queue.items.len(), 0);
    assert!(e.tasks[0].slot.is_none());
    assert_eq!(e.tasks[0].output, output);
}

#[test]
fn spawning_past_capacity_overflows_deterministically() {
    let mut e: Executor<DelayJob> = Executor::new(1);
    assert_eq!(e.spawn(DelayJob::new(1)), Ok(0));
    assert_eq!(e.spawn(DelayJob::new(2)), Err(QueueOverflow));
    // the failed spawn left the scheduler unchanged
    assert_eq!(e.tasks.len(), 1);
    assert_eq!(e.queue.items, vec![0]);
}

#[test]
fn wake_past_capacity_overflows_deterministically() {
    let mut e: Executor<DelayJob> = Executor::new(1);
    assert_eq!(e.spawn(DelayJob::new(1)), Ok(0));
    assert_eq!(e.wake_by_ref(0), Err(QueueOverflow));
    assert_eq!(e.queue.items, vec![0]);
}

#[test]
fn scenario_start_delay_end() {
    // one computation: record "start", await a 50-time-unit delay, record "end"
    let mut hub = TimerHub::new();
    let mut job = DelayJob::new(50);

    let r = job.poll_step(&mut hub, 0);
    assert!(matches!(r, Poll::Pending));
    assert_eq!(job.started_at, Some(0));
    assert_eq!(job.finished_at, None);

    // the background timer fires at the deadline and hands back the wake
    hub.advance_to(50);
    let w = hub.fire(0);
    assert_eq!(w, Some(0));

    let r2 = job.poll_step(&mut hub, 0);
    match r2 {
        Poll::Ready((start, end)) => {
            assert_eq!(start, 0);
            assert_eq!(end, 50);
            assert!(start <= end);
            assert!(end - start >= 50);
        },
        Poll::Pending => panic!("job still pending after its timer fired"),
    }
    assert_eq!(job.finished_at, Some(50));
}

#[test]
fn scenario_start_delay_end_under_the_executor() {
    let mut e: Executor<DelayJob> = Executor::new(10);
    let id = e.spawn(DelayJob::new(50)).unwrap();
    e.run();
    let (start, end) = e.tasks[id].output.expect("job completed");
    assert!(start <= end);
    assert!(end - start >= 50);
    // exactly three polls' worth of work happened: no busy-spinning loop of
    // re-polls is possible, since a pending task is only re-enqueued by its
    // timer firing
    assert_eq!(e.queue.items.len(), 0);
    assert_eq!(e.hub.now, 50);
}
