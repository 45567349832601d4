//! The records of the conversation store, and what is computed on them.
use vstd::prelude::*;

verus! {

/// One turn of the conversation.
#[derive(Debug, Clone)]
pub struct Message {
    pub role: String,
    pub content: String,
}

/// What a `Message` holds.
pub ghost struct MessageView {
    pub role: Seq<char>,
    pub content: Seq<char>,
}

impl View for Message {
    type V = MessageView;

    open spec fn view(&self) -> MessageView {
        MessageView { role: self.role@, content: self.content@ }
    }
}

impl DeepView for Message {
    type V = MessageView;

    open spec fn deep_view(&self) -> MessageView {
        self@
    }
}

/// A stored job: a cron schedule, a short label and the payload handed to
/// every consumer when the schedule fires.
#[derive(Debug, Clone)]
pub struct CronJob {
    pub id: i64,
    pub schedule: String,
    pub task: String,
    pub message: String,
    pub enabled: bool,
}

/// What a `CronJob` holds.
pub ghost struct JobView {
    pub id: i64,
    pub schedule: Seq<char>,
    pub task: Seq<char>,
    pub message: Seq<char>,
    pub enabled: bool,
}

impl View for CronJob {
    type V = JobView;

    open spec fn view(&self) -> JobView {
        JobView {
            id: self.id,
            schedule: self.schedule@,
            task: self.task@,
            message: self.message@,
            enabled: self.enabled,
        }
    }
}

impl DeepView for CronJob {
    type V = JobView;

    open spec fn deep_view(&self) -> JobView {
        self@
    }
}

/// A record of one file written to the workspace.
#[derive(Debug, Clone)]
pub struct WorkspaceFile {
    pub filename: String,
    pub description: Option<String>,
    pub created_at: String,
}

/// The user whose conversation and jobs the store keeps.
pub const USER_ID: i64 = 1;

/// The address of the store in the file `path`, to be made where it is not
/// there.
pub fn database_url(path: &str) -> (r: String)
    ensures
        r@ == "sqlite:"@ + path@ + "?mode=rwc"@,
{
    let mut r = "sqlite:".to_owned();
    r.append(path);
    r.append("?mode=rwc");
    r
}

/// The number of turns to ask the store for, as the store counts.
pub fn history_limit(limit: usize) -> (r: i64)
    ensures
        r == if limit <= i64::MAX {
            limit as i64
        } else {
            i64::MAX
        },
{
    let n: u64 = limit as u64;
    if n > 0x7fff_ffff_ffff_ffff {
        i64::MAX
    } else {
        n as i64
    }
}

/// The turns of a conversation oldest first, from the rows of the store,
/// which come latest first.
pub fn history_in_order(rows: Vec<Message>) -> (r: Vec<Message>)
    ensures
        r.deep_view() == rows.deep_view().reverse(),
{
    let mut rest = rows;
    let mut out: Vec<Message> = Vec::new();
    let ghost all = rows.deep_view();
    let n = rest.len();
    assert(out.deep_view() =~= all.reverse().take(0));
    while rest.len() > 0
        invariant
            n == all.len(),
            rest.len() <= n,
            rest.deep_view() == all.take(rest.len() as int),
            out.deep_view() == all.reverse().take(n - rest.len()),
        decreases rest.len(),
    {
        let ghost rest_before = rest.deep_view();
        let ghost out_before = out.deep_view();
        let ghost k = rest.len() as int;
        let m = rest.pop().unwrap();
        out.push(m);
        proof {
            assert(rest.deep_view() =~= rest_before.drop_last());
            assert(rest_before.last() == m@);
            assert(out.deep_view() =~= out_before.push(m@));
            assert(all.reverse()[n - k] == all[k - 1]);
            assert(rest.deep_view() =~= all.take(k - 1));
            assert(out.deep_view() =~= all.reverse().take(n - k + 1));
        }
    }
    assert(all.reverse().take(n as int) =~= all.reverse());
    out
}

/// Whether a request to disable a job found the job: it changed a row.
pub fn row_found(rows_affected: u64) -> (r: bool)
    ensures
        r == (rows_affected > 0),
{
    rows_affected > 0
}

impl CronJob {
    /// The job that a row of the store holds. The store keeps the flag as a
    /// number: one for an enabled job.
    pub fn from_row(id: i64, schedule: String, task: String, message: String, enabled: i64) -> (r:
        CronJob)
        ensures
            r@ == (JobView {
                id,
                schedule: schedule@,
                task: task@,
                message: message@,
                enabled: enabled == 1,
            }),
    {
        CronJob { id, schedule, task, message, enabled: enabled == 1 }
    }
}

} // verus!
