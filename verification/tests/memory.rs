use rustyclaw::memory::{
    database_url, history_in_order, history_limit, row_found, CronJob, Message, USER_ID,
};

fn said(role: &str, content: &str) -> Message {
    Message { role: role.to_string(), content: content.to_string() }
}

#[test]
fn the_store_is_opened_for_reading_writing_and_creating() {
    assert_eq!(database_url("./rustyclaw.db"), "sqlite:./rustyclaw.db?mode=rwc");
    assert_eq!(USER_ID, 1);
}

#[test]
fn the_history_limit_fits_the_store() {
    assert_eq!(history_limit(0), 0);
    assert_eq!(history_limit(50), 50);
    let most = if usize::MAX as u128 > i64::MAX as u128 { i64::MAX } else { usize::MAX as i64 };
    assert_eq!(history_limit(usize::MAX), most);
}

#[test]
fn rows_come_latest_first_and_go_out_oldest_first() {
    let rows = vec![said("assistant", "3"), said("user", "2"), said("user", "1")];
    let history = history_in_order(rows);
    let got: Vec<(&str, &str)> =
        history.iter().map(|m| (m.role.as_str(), m.content.as_str())).collect();
    assert_eq!(got, vec![("user", "1"), ("user", "2"), ("assistant", "3")]);
    assert!(history_in_order(Vec::new()).is_empty());
}

#[test]
fn a_row_holds_a_job() {
    let job = CronJob::from_row(9, "0 9 * * *".to_string(), "t".to_string(), "m".to_string(), 1);
    assert_eq!((job.id, job.schedule.as_str(), job.task.as_str()), (9, "0 9 * * *", "t"));
    assert_eq!(job.message, "m");
    assert!(job.enabled);
    for flag in [0, 2, -1] {
        assert!(!CronJob::from_row(1, String::new(), String::new(), String::new(), flag).enabled);
    }
}

#[test]
fn a_changed_row_means_the_job_was_found() {
    assert!(!row_found(0));
    assert!(row_found(1));
    assert!(row_found(5));
}
