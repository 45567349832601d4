use rustyclaw::memory::CronJob;
use rustyclaw::schedule::{
    check_schedule, delay_until, expression, judge_schedule, next_fire, ScheduleError,
    EARLIEST_INSTANT, LATEST_INSTANT,
};
use rustyclaw::scheduler::{CallbackRegistry, Dispatch, Scheduler, Wake};

fn job(id: i64, schedule: &str, message: &str) -> CronJob {
    CronJob {
        id,
        schedule: schedule.to_string(),
        task: "task".to_string(),
        message: message.to_string(),
        enabled: true,
    }
}

fn calls(d: &Dispatch) -> Vec<(u64, String)> {
    match d {
        Dispatch::Deliver { message, consumers } => {
            consumers.iter().map(|c| (*c, message.clone())).collect()
        }
        _ => Vec::new(),
    }
}

#[test]
fn five_field_schedules_are_valid() {
    for s in ["*/5 * * * *", "0 9 * * *", "15 14 1 * *", "0 0 * * 1-5", "0,30 8-18 * * *"] {
        assert!(Scheduler::validate_cron(s).is_ok(), "{}", s);
    }
}

#[test]
fn wrong_field_count_is_refused_before_the_evaluator() {
    for s in ["", "* * * *", "0 9 * *", "0 0 9 * * *", "*/5 * * * * * *"] {
        match Scheduler::validate_cron(s) {
            Err(ScheduleError::FieldCount) => {}
            other => panic!("{:?} gave {:?}", s, other),
        }
    }
    assert_eq!(
        ScheduleError::FieldCount.message(),
        "Invalid cron format - needs 5 fields (minute hour day month weekday)"
    );
}

#[test]
fn five_fields_that_are_no_cron_fields_are_refused() {
    for s in ["a b c d e", "61 * * * *", "* 25 * * *", "* * 0 * *"] {
        match check_schedule(s) {
            Err(ScheduleError::Syntax(reason)) => {
                assert!(!reason.is_empty());
                assert_eq!(ScheduleError::Syntax(reason.clone()).message(), reason);
            }
            other => panic!("{:?} gave {:?}", s, other),
        }
    }
}

#[test]
fn judge_schedule_on_given_results() {
    assert!(judge_schedule("1 2 3 4 5", None).is_ok());
    match judge_schedule("1 2 3 4 5", Some("why".to_string())) {
        Err(ScheduleError::Syntax(t)) => assert_eq!(t, "why"),
        other => panic!("{:?}", other),
    }
    match judge_schedule("1 2 3 4", None) {
        Err(ScheduleError::FieldCount) => {}
        other => panic!("{:?}", other),
    }
    match judge_schedule("1 2 3 4 5 6", Some("why".to_string())) {
        Err(ScheduleError::FieldCount) => {}
        other => panic!("{:?}", other),
    }
}

#[test]
fn a_refused_schedule_carries_the_words_of_the_evaluator() {
    for s in ["a b c d e", "61 * * * *", "* * * * 9"] {
        let expected =
            format!("0 {}", s).parse::<cron::Schedule>().expect_err("refused").to_string();
        match check_schedule(s) {
            Err(ScheduleError::Syntax(reason)) => assert_eq!(reason, expected, "{:?}", s),
            other => panic!("{:?} gave {:?}", s, other),
        }
        let mut engine = Scheduler::new();
        match engine.add_job(1, s, "t", "m") {
            Err(ScheduleError::Syntax(reason)) => assert_eq!(reason, expected),
            other => panic!("{:?} gave {:?}", s, other),
        }
    }
}

#[test]
fn a_task_asked_at_a_fire_time_is_sent_on_to_the_next() {
    let mut s = Scheduler::new();
    s.add_job(1, "*/5 * * * *", "t", "m").unwrap();
    let mut now = 0;
    for expected in [300, 600, 900] {
        match s.next_wake(1, now) {
            Wake::At { time, delay } => {
                assert_eq!(time, expected);
                assert!(time > now);
                assert_eq!(delay, 300);
                now = time;
            }
            other => panic!("{:?}", other),
        }
    }
}

#[test]
fn the_evaluator_is_handed_a_seconds_field_of_zero() {
    assert_eq!(expression("*/5 * * * *"), "0 */5 * * * *");
}

#[test]
fn next_fire_is_the_next_match_after_now() {
    assert_eq!(next_fire("*/5 * * * *", 0), Some(300));
    assert_eq!(next_fire("*/5 * * * *", 299), Some(300));
    assert_eq!(next_fire("*/5 * * * *", 300), Some(600));
    assert_eq!(next_fire("0 9 * * *", 0), Some(9 * 3600));
    assert_eq!(next_fire("30 0 2 1 *", 0), Some(86400 + 1800));
    assert_eq!(next_fire("0 0 1 1 *", 1), Some(365 * 86400));
}

#[test]
fn next_fire_of_an_impossible_date_is_none() {
    assert_eq!(next_fire("0 0 30 2 *", 0), None);
}

#[test]
fn next_fire_outside_the_range_is_none() {
    assert_eq!(next_fire("* * * * *", LATEST_INSTANT + 1), None);
    assert_eq!(next_fire("* * * * *", EARLIEST_INSTANT - 1), None);
    assert_eq!(next_fire("* * * * *", i64::MAX), None);
    assert_eq!(next_fire("* * * * *", i64::MIN), None);
    assert_eq!(next_fire("* * * * *", LATEST_INSTANT), None);
}

#[test]
fn next_fire_at_the_ends_of_the_range_returns() {
    let _ = next_fire("* * * * *", EARLIEST_INSTANT);
    let _ = next_fire("* * * * *", LATEST_INSTANT);
    assert_eq!(next_fire("* * * * *", -60), Some(0));
    assert_eq!(next_fire("* * * * *", -86_400), Some(0));
}

#[test]
fn next_fire_of_what_the_evaluator_refuses_is_none() {
    assert_eq!(next_fire("not a schedule", 0), None);
}

#[test]
fn delay_until_is_the_distance_or_zero() {
    assert_eq!(delay_until(300, 0), 300);
    assert_eq!(delay_until(300, 300), 0);
    assert_eq!(delay_until(300, 301), 0);
    assert_eq!(delay_until(5, -5), 10);
    assert_eq!(delay_until(-5, -15), 10);
    assert_eq!(delay_until(i64::MAX, i64::MIN), u64::MAX);
}

#[test]
fn cancelling_before_the_first_fire_time_calls_nobody() {
    let mut s = Scheduler::new();
    s.add_send_callback(1);
    let id = s.add_job(7, "*/5 * * * *", "t", "hello").unwrap();
    assert_eq!(id, 7);
    assert!(s.is_running(7));
    match s.next_wake(7, 1_700_000_000) {
        Wake::At { time, delay } => {
            assert_eq!(time, 1_700_000_100);
            assert_eq!(delay, 100);
        }
        other => panic!("{:?}", other),
    }
    assert!(s.cancel_job(7));
    assert!(!s.is_running(7));
    assert!(matches!(s.next_wake(7, 1_700_000_000), Wake::Gone));
    let d = s.fire(7);
    assert!(matches!(d, Dispatch::Gone));
    assert!(calls(&d).is_empty());
}

#[test]
fn cancelling_twice_is_no_error() {
    let mut s = Scheduler::new();
    s.add_job(1, "0 9 * * *", "t", "m").unwrap();
    s.add_job(2, "0 10 * * *", "t", "other").unwrap();
    assert!(s.cancel_job(1));
    assert!(!s.cancel_job(1));
    assert!(!s.is_running(1));
    assert!(s.is_running(2));
    assert_eq!(s.running(), 1);
}

#[test]
fn a_live_timer_is_dropped_whatever_the_store_knows() {
    let mut s = Scheduler::new();
    s.set_send_callback(1);
    s.add_job(1, "0 9 * * *", "t", "m").unwrap();
    assert!(s.cancel_job(1));
    assert!(!s.is_running(1));
    assert!(matches!(s.fire(1), Dispatch::Gone));
    assert!(matches!(s.next_wake(1, 0), Wake::Gone));
    assert!(!s.cancel_job(5));
    assert_eq!(s.consumers(), vec![1]);
}

#[test]
fn additive_consumers_are_each_called_once_in_order() {
    let mut s = Scheduler::new();
    s.add_send_callback(10);
    s.add_send_callback(20);
    s.add_send_callback(10);
    s.add_job(1, "*/5 * * * *", "t", "ping").unwrap();
    let d = s.fire(1);
    assert_eq!(calls(&d), vec![(10, "ping".to_string()), (20, "ping".to_string())]);
    let again = s.fire(1);
    assert_eq!(calls(&again), vec![(10, "ping".to_string()), (20, "ping".to_string())]);
}

#[test]
fn an_exclusive_consumer_replaces_the_others() {
    let mut s = Scheduler::new();
    s.add_send_callback(1);
    s.add_send_callback(2);
    s.set_send_callback(3);
    assert_eq!(s.consumers(), vec![3]);
    s.add_send_callback(4);
    assert_eq!(s.consumers(), vec![3, 4]);
}

#[test]
fn firing_without_consumers_drops_the_message() {
    let mut s = Scheduler::new();
    s.add_job(1, "*/5 * * * *", "t", "lost").unwrap();
    match s.fire(1) {
        Dispatch::Dropped { message } => assert_eq!(message, "lost"),
        other => panic!("{:?}", other),
    }
}

#[test]
fn loading_passes_over_the_invalid_schedule() {
    let mut s = Scheduler::new();
    let skipped = s.load_jobs(vec![job(1, "0 9 * * *", "a"), job(2, "every day", "b")]);
    assert_eq!(skipped, vec![2]);
    assert!(s.is_running(1));
    assert!(!s.is_running(2));
    assert_eq!(s.running(), 1);
    let mut t = Scheduler::new();
    let skipped = t.load_jobs(vec![job(2, "61 * * * *", "b"), job(1, "0 9 * * *", "a")]);
    assert_eq!(skipped, vec![2]);
    assert!(t.is_running(1));
    assert!(!t.is_running(2));
}

#[test]
fn loading_leaves_disabled_jobs_alone() {
    let mut s = Scheduler::new();
    let mut off = job(3, "0 9 * * *", "c");
    off.enabled = false;
    let mut off_and_bad = job(4, "nonsense", "d");
    off_and_bad.enabled = false;
    let skipped = s.load_jobs(vec![off, off_and_bad, job(5, "*/2 * * * *", "e")]);
    assert!(skipped.is_empty());
    assert!(!s.is_running(3));
    assert!(s.is_running(5));
}

#[test]
fn adding_an_invalid_schedule_changes_nothing() {
    let mut s = Scheduler::new();
    assert!(matches!(s.add_job(1, "0 9 * *", "t", "m"), Err(ScheduleError::FieldCount)));
    assert!(matches!(s.add_job(1, "x * * * *", "t", "m"), Err(ScheduleError::Syntax(_))));
    assert_eq!(s.running(), 0);
    assert!(s.schedule_job(job(1, "bad", "m")).is_err());
    assert_eq!(s.running(), 0);
}

#[test]
fn arming_again_replaces_the_timer() {
    let mut s = Scheduler::new();
    s.set_send_callback(1);
    s.schedule_job(job(1, "0 9 * * *", "old")).unwrap();
    s.schedule_job(job(1, "0 10 * * *", "new")).unwrap();
    assert_eq!(s.running(), 1);
    assert_eq!(calls(&s.fire(1)), vec![(1, "new".to_string())]);
    assert!(matches!(s.next_wake(1, 0), Wake::At { time: 36000, delay: 36000 }));
}

#[test]
fn an_exhausted_schedule_loses_its_timer() {
    let mut s = Scheduler::new();
    s.add_job(1, "0 0 30 2 *", "t", "never").unwrap();
    assert!(s.is_running(1));
    assert!(matches!(s.next_wake(1, 0), Wake::Exhausted));
    assert!(!s.is_running(1));
    assert!(matches!(s.next_wake(1, 0), Wake::Gone));
}

#[test]
fn a_fire_time_that_is_past_means_no_wait() {
    let mut s = Scheduler::new();
    s.add_job(1, "*/5 * * * *", "t", "m").unwrap();
    match s.next_wake(1, 0) {
        Wake::At { time, delay } => {
            assert_eq!((time, delay), (300, 300));
            assert_eq!(delay_until(time, 400), 0);
        }
        other => panic!("{:?}", other),
    }
}

#[test]
fn stop_drops_every_timer_and_keeps_the_consumers() {
    let mut s = Scheduler::new();
    s.add_send_callback(9);
    s.add_job(1, "*/5 * * * *", "t", "a").unwrap();
    s.add_job(2, "0 9 * * *", "t", "b").unwrap();
    assert_eq!(s.running(), 2);
    s.stop();
    assert_eq!(s.running(), 0);
    assert!(matches!(s.fire(1), Dispatch::Gone));
    assert_eq!(s.consumers(), vec![9]);
}

#[test]
fn registry_adds_by_identity() {
    let mut r = CallbackRegistry::new();
    assert!(r.consumers().is_empty());
    r.add(5);
    r.add(6);
    r.add(5);
    assert_eq!(r.consumers(), vec![5, 6]);
    assert!(r.contains(6));
    assert!(!r.contains(7));
    r.set_exclusive(7);
    assert_eq!(r.consumers(), vec![7]);
}
