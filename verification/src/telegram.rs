//! What the chat bot understands and what it answers.
use crate::agent::blocks::{code_blocks, CronJobData, CronRequest, CODE_BLOCK};
use crate::agent::Agent;
use crate::config::OllamaConfig;
use crate::memory::{CronJob, JobView, Message, MessageView};
use crate::pattern::regex_captures;
use crate::text::{has_prefix, join, join_range, joined, same_text, starts_with};
use crate::text::number::{
    decimal, decimal_text, parse_signed, signed_decimal, signed_decimal_text, signed_value,
};
use crate::text::space::{split_words, words};
use crate::text::utf8::{chars_within, pieces, prefix_within, split_pieces, utf8_len};
use vstd::prelude::*;

verus! {

/// The commands of the chat bot.
#[derive(Debug, Clone, Copy, PartialEq, Eq, Structural)]
pub enum Command {
    Start,
    Status,
    Jobs,
    Schedule,
    Cancel,
    Workspace,
    Save,
    Memory,
    Forget,
    Clear,
    Help,
}

/// The reply to `/start`.
pub const START_TEXT: &'static str =
    "🦀 RustyClaw is online!\n\
     \n\
     I'm your local AI assistant running in Rust.\n\
     \n\
     Just send me a message to chat, or use:\n\
     /status — System status\n\
     /jobs — List scheduled tasks\n\
     /schedule — Create a cron job\n\
     /workspace — List generated files\n\
     /clear — Clear conversation history\n\
     /help — Show all commands";

/// The reply to `/cancel` without a job id.
pub const CANCEL_USAGE: &'static str = "Usage: /cancel <job_id>";

/// The reply to `/save` without a file name.
pub const SAVE_USAGE: &'static str =
    "Usage: /save filename.py\n\nThis will save the last code block from my response.";

/// The reply to `/schedule` without arguments.
pub const SCHEDULE_HELP: &'static str =
    "Usage: /schedule <cron> <prompt>\n\
     \n\
     The prompt will be sent to me when the job triggers.\n\
     \n\
     Cron format: minute hour day month weekday\n\
     \n\
     Examples:\n\
     /schedule */3 * * * * Tell me a joke\n\
     /schedule 0 9 * * * Give me a motivational quote";

/// The reply to `/schedule` with too few arguments.
pub const SCHEDULE_USAGE: &'static str = "Usage: /schedule <cron> <message>";

/// The reply to `/help`.
pub const HELP_TEXT: &'static str =
    "🦀 RustyClaw Commands\n\
     \n\
     /start — Welcome message\n\
     /status — System status\n\
     /jobs — List scheduled tasks\n\
     /schedule <cron> <msg> — Create a cron job\n\
     /cancel <id> — Cancel a task\n\
     /workspace — List generated files\n\
     /save <filename> — Save last code block\n\
     /memory — View saved memories\n\
     /forget — Clear all memories\n\
     /clear — Clear chat history\n\
     /help — This message";

/// The reply to `/clear`.
pub const CLEARED_TEXT: &'static str = "🧹 Conversation history cleared.";

/// The reply to `/forget` where the facts were forgotten.
pub const FORGOTTEN_TEXT: &'static str = "🧹 All memories have been forgotten.";

/// The reply to `/forget` where forgetting failed.
pub const FORGET_FAILED_TEXT: &'static str = "❌ Failed to clear memory.";

/// The reply to `/jobs` where no job is scheduled.
pub const NO_JOBS_TEXT: &'static str = "No scheduled jobs. Ask me to schedule something!";

/// The reply to `/workspace` where the workspace holds no file.
pub const EMPTY_WORKSPACE_TEXT: &'static str = "Workspace is empty. Ask me to write some code!";

/// The reply to `/memory` where nothing is remembered.
pub const NO_MEMORY_TEXT: &'static str =
    "🧠 My Memory\n\nNo memories saved yet. Tell me something about yourself!";

/// The reply to `/save` where the recent conversation holds no code block.
pub const NO_CODE_TEXT: &'static str = "❌ No code blocks found in recent conversation.";

/// The number of bytes that one message to the chat may hold.
pub const CHUNK_BYTES: usize = 4000;

/// The replies that need nothing but the command.
pub open spec fn fixed_reply(cmd: Command) -> Option<Seq<char>> {
    match cmd {
        Command::Start => Some(START_TEXT@),
        Command::Cancel => Some(CANCEL_USAGE@),
        Command::Save => Some(SAVE_USAGE@),
        Command::Schedule => Some(SCHEDULE_HELP@),
        Command::Help => Some(HELP_TEXT@),
        Command::Clear => Some(CLEARED_TEXT@),
        _ => None,
    }
}

/// The reply to a command that needs nothing but the command, `None` for a
/// command whose reply depends on the state of the system.
pub fn static_reply(cmd: Command) -> (r: Option<String>)
    ensures
        r.deep_view() == fixed_reply(cmd),
{
    match cmd {
        Command::Start => Some(START_TEXT.to_owned()),
        Command::Cancel => Some(CANCEL_USAGE.to_owned()),
        Command::Save => Some(SAVE_USAGE.to_owned()),
        Command::Schedule => Some(SCHEDULE_HELP.to_owned()),
        Command::Help => Some(HELP_TEXT.to_owned()),
        Command::Clear => Some(CLEARED_TEXT.to_owned()),
        _ => None,
    }
}

/// The reply to `/status`.
pub open spec fn status_text(
    model: Seq<char>,
    host: Seq<char>,
    context_length: nat,
    jobs: nat,
    files: nat,
) -> Seq<char> {
    "🦀 RustyClaw Status\n\nModel: "@ + model + "\nHost: "@ + host + "\nContext: "@ + decimal(
        context_length,
    ) + " tokens\nScheduled jobs: "@ + decimal(jobs) + "\nWorkspace files: "@ + decimal(files)
}

/// The reply to `/status` for the given settings, number of scheduled jobs
/// and number of files in the workspace.
pub fn status_reply(config: &OllamaConfig, jobs: usize, files: usize) -> (r: String)
    ensures
        r@ == status_text(
            config.model@,
            config.host@,
            config.context_length as nat,
            jobs as nat,
            files as nat,
        ),
{
    let mut r = "🦀 RustyClaw Status\n\nModel: ".to_owned();
    r.append(config.model.as_str());
    r.append("\nHost: ");
    r.append(config.host.as_str());
    r.append("\nContext: ");
    r.append(decimal_text(config.context_length as u64).as_str());
    r.append(" tokens\nScheduled jobs: ");
    r.append(decimal_text(jobs as u64).as_str());
    r.append("\nWorkspace files: ");
    r.append(decimal_text(files as u64).as_str());
    r
}

/// The line of the job list for one job.
pub open spec fn job_line(job: JobView) -> Seq<char> {
    "#"@ + signed_decimal(job.id as int) + " — "@ + job.task + "\n  Schedule: "@ + job.schedule
}

/// The lines of the job list for `jobs`.
pub open spec fn job_lines(jobs: Seq<JobView>) -> Seq<Seq<char>> {
    Seq::new(jobs.len(), |i: int| job_line(jobs[i]))
}

/// The reply to `/jobs`.
pub open spec fn jobs_text(jobs: Seq<JobView>) -> Seq<char> {
    if jobs.len() == 0 {
        NO_JOBS_TEXT@
    } else {
        joined(seq!["🕐 Scheduled Jobs\n"@] + job_lines(jobs), "\n"@)
    }
}

/// The reply to `/jobs` for the jobs that the store lists.
pub fn jobs_reply(jobs: &Vec<CronJob>) -> (r: String)
    ensures
        r@ == jobs_text(jobs.deep_view()),
{
    let n = jobs.len();
    if n == 0 {
        return NO_JOBS_TEXT.to_owned();
    }
    let mut lines: Vec<String> = Vec::new();
    lines.push("🕐 Scheduled Jobs\n".to_owned());
    let ghost head = seq!["🕐 Scheduled Jobs\n"@];
    let ghost all = job_lines(jobs.deep_view());
    let mut i: usize = 0;
    assert(lines.deep_view() =~= head + all.take(0));
    while i < n
        invariant
            n == jobs.len(),
            i <= n,
            head == seq!["🕐 Scheduled Jobs\n"@],
            all == job_lines(jobs.deep_view()),
            lines.deep_view() == head + all.take(i as int),
        decreases n - i,
    {
        let mut line = "#".to_owned();
        line.append(signed_decimal_text(jobs[i].id).as_str());
        line.append(" — ");
        line.append(jobs[i].task.as_str());
        line.append("\n  Schedule: ");
        line.append(jobs[i].schedule.as_str());
        let ghost before = lines.deep_view();
        lines.push(line);
        proof {
            assert(jobs.deep_view()[i as int] == jobs@[i as int]@);
            assert(lines.deep_view() =~= before.push(line@));
            assert(head + all.take(i + 1) =~= (head + all.take(i as int)).push(all[i as int]));
        }
        i += 1;
    }
    assert(all.take(n as int) =~= all);
    join(&lines, "\n")
}

/// The line of the file list for a file called `name` of `size` kilobytes,
/// `size` written out.
pub open spec fn file_line(name: Seq<char>, size: Seq<char>) -> Seq<char> {
    name + " ("@ + size + " KB)"@
}

/// The lines of the file list.
pub open spec fn file_lines(files: Seq<(Seq<char>, Seq<char>)>) -> Seq<Seq<char>> {
    Seq::new(files.len(), |i: int| file_line(files[i].0, files[i].1))
}

/// The reply to `/workspace`.
pub open spec fn workspace_text(files: Seq<(Seq<char>, Seq<char>)>) -> Seq<char> {
    if files.len() == 0 {
        EMPTY_WORKSPACE_TEXT@
    } else {
        joined(seq!["📁 Workspace Files\n"@] + file_lines(files), "\n"@)
    }
}

/// The reply to `/workspace` for files given by name and by size in
/// kilobytes, the size written out.
pub fn workspace_reply(files: &Vec<(String, String)>) -> (r: String)
    ensures
        r@ == workspace_text(files.deep_view()),
{
    let n = files.len();
    if n == 0 {
        return EMPTY_WORKSPACE_TEXT.to_owned();
    }
    let mut lines: Vec<String> = Vec::new();
    lines.push("📁 Workspace Files\n".to_owned());
    let ghost head = seq!["📁 Workspace Files\n"@];
    let ghost all = file_lines(files.deep_view());
    let mut i: usize = 0;
    assert(lines.deep_view() =~= head + all.take(0));
    while i < n
        invariant
            n == files.len(),
            i <= n,
            head == seq!["📁 Workspace Files\n"@],
            all == file_lines(files.deep_view()),
            lines.deep_view() == head + all.take(i as int),
        decreases n - i,
    {
        let mut line = files[i].0.clone();
        line.append(" (");
        line.append(files[i].1.as_str());
        line.append(" KB)");
        let ghost before = lines.deep_view();
        lines.push(line);
        proof {
            assert(files.deep_view()[i as int] == files@[i as int].deep_view());
            assert(lines.deep_view() =~= before.push(line@));
            assert(head + all.take(i + 1) =~= (head + all.take(i as int)).push(all[i as int]));
        }
        i += 1;
    }
    assert(all.take(n as int) =~= all);
    join(&lines, "\n")
}

/// The reply to `/memory`.
pub open spec fn memory_text(content: Seq<char>, is_large: bool, lines: nat) -> Seq<char> {
    if content.len() == 0 {
        NO_MEMORY_TEXT@
    } else if is_large {
        "🧠 My Memory ("@ + decimal(lines) + " lines)\n\n⚠️ Memory is getting large!\n\n"@
            + content
    } else {
        "🧠 My Memory ("@ + decimal(lines) + " lines)\n\n"@ + content
    }
}

/// The reply to `/memory` for the remembered facts, with what
/// `Agent::check_memory_size` says of them.
pub fn memory_reply(content: &str, is_large: bool, lines: usize) -> (r: String)
    ensures
        r@ == memory_text(content@, is_large, lines as nat),
{
    if content.unicode_len() == 0 {
        return NO_MEMORY_TEXT.to_owned();
    }
    let mut r = "🧠 My Memory (".to_owned();
    r.append(decimal_text(lines as u64).as_str());
    if is_large {
        r.append(" lines)\n\n⚠️ Memory is getting large!\n\n");
    } else {
        r.append(" lines)\n\n");
    }
    r.append(content);
    r
}

/// The reply to `/forget`, by whether forgetting went well.
pub fn forget_reply(cleared: bool) -> (r: String)
    ensures
        r@ == if cleared {
            FORGOTTEN_TEXT@
        } else {
            FORGET_FAILED_TEXT@
        },
{
    if cleared {
        FORGOTTEN_TEXT.to_owned()
    } else {
        FORGET_FAILED_TEXT.to_owned()
    }
}

/// What an incoming text asks for.
#[derive(Debug, Clone)]
pub enum Incoming {
    /// `/cancel` with a job id, or with nothing that reads as one.
    Cancel { job_id: Option<i64> },
    /// `/schedule` with a schedule and a message, or with too little.
    Schedule { request: Option<CronJobData> },
    /// `/save` with a file name, or without.
    Save { filename: Option<String> },
    /// Anything else: a turn of the conversation.
    Chat,
}

/// What an `Incoming` holds.
pub ghost enum IncomingView {
    Cancel { job_id: Option<i64> },
    Schedule { request: Option<CronRequest> },
    Save { filename: Option<Seq<char>> },
    Chat,
}

impl View for Incoming {
    type V = IncomingView;

    open spec fn view(&self) -> IncomingView {
        match self {
            Incoming::Cancel { job_id } => IncomingView::Cancel { job_id: *job_id },
            Incoming::Schedule { request } => IncomingView::Schedule {
                request: match request {
                    Some(r) => Some(r@),
                    None => None,
                },
            },
            Incoming::Save { filename } => IncomingView::Save {
                filename: match filename {
                    Some(f) => Some(f@),
                    None => None,
                },
            },
            Incoming::Chat => IncomingView::Chat,
        }
    }
}

/// The label of a job made from its message: the message itself where it
/// takes at most 50 bytes, else its longest prefix of at most 47 bytes
/// followed by three dots.
pub open spec fn task_label_of(message: Seq<char>) -> Seq<char> {
    if utf8_len(message) > 50 {
        message.take(chars_within(message, 47) as int) + "..."@
    } else {
        message
    }
}

/// What the words of a `/cancel` text ask for.
pub open spec fn cancel_request(parts: Seq<Seq<char>>) -> Option<i64> {
    if parts.len() >= 2 {
        signed_value(parts[1])
    } else {
        None
    }
}

/// What the words of a `/schedule` text ask for: words two to six are the
/// schedule, the words after them the message.
pub open spec fn schedule_request(parts: Seq<Seq<char>>) -> Option<CronRequest> {
    if parts.len() >= 7 {
        let message = joined(parts.subrange(6, parts.len() as int), " "@);
        Some(
            CronRequest {
                schedule: joined(parts.subrange(1, 6), " "@),
                task: task_label_of(message),
                message,
            },
        )
    } else {
        None
    }
}

/// What the words of a `/save` text ask for.
pub open spec fn save_request(parts: Seq<Seq<char>>) -> Option<Seq<char>> {
    if parts.len() >= 2 {
        Some(parts[1])
    } else {
        None
    }
}

/// What `text` asks for.
pub open spec fn incoming(text: Seq<char>) -> IncomingView {
    if has_prefix(text, "/cancel "@) {
        IncomingView::Cancel { job_id: cancel_request(words(text)) }
    } else if has_prefix(text, "/schedule "@) {
        IncomingView::Schedule { request: schedule_request(words(text)) }
    } else if has_prefix(text, "/save "@) {
        IncomingView::Save { filename: save_request(words(text)) }
    } else {
        IncomingView::Chat
    }
}

/// The label of a job made from its message.
pub fn task_label(message: &str) -> (r: String)
    ensures
        r@ == task_label_of(message@),
{
    let whole = prefix_within(message, 50);
    if whole.1 {
        message.to_owned()
    } else {
        let cut = prefix_within(message, 47);
        let mut r = cut.0.to_owned();
        r.append("...");
        r
    }
}

/// Sorts an incoming text: a request to cancel a job, to schedule one or to
/// save the last code block, or a turn of the conversation.
pub fn classify(text: &str) -> (r: Incoming)
    ensures
        r@ == incoming(text@),
{
    if starts_with(text, "/cancel ") {
        let parts = split_words(text);
        let job_id = if parts.len() >= 2 {
            assert(parts.deep_view()[1] == parts@[1]@);
            parse_signed(parts[1].as_str())
        } else {
            None
        };
        Incoming::Cancel { job_id }
    } else if starts_with(text, "/schedule ") {
        let parts = split_words(text);
        let request = if parts.len() >= 7 {
            let schedule = join_range(&parts, 1, 6, " ");
            let message = join_range(&parts, 6, parts.len(), " ");
            let task = task_label(message.as_str());
            Some(CronJobData { schedule, task, message })
        } else {
            None
        };
        Incoming::Schedule { request }
    } else if starts_with(text, "/save ") {
        let parts = split_words(text);
        let filename = if parts.len() >= 2 {
            assert(parts.deep_view()[1] == parts@[1]@);
            Some(parts[1].clone())
        } else {
            None
        };
        Incoming::Save { filename }
    } else {
        Incoming::Chat
    }
}

/// The reply to a request to cancel job `job_id`, by what cancelling came to:
/// whether the store had the job, or the store's error.
pub fn cancel_reply(job_id: i64, outcome: Result<bool, String>) -> (r: String)
    ensures
        outcome == Ok::<bool, String>(true) ==> r@ == "✅ Cancelled job #"@ + signed_decimal(
            job_id as int,
        ),
        outcome == Ok::<bool, String>(false) ==> r@ == "Job #"@ + signed_decimal(job_id as int)
            + " not found."@,
        outcome matches Err(e) ==> r@ == "Error: "@ + e@,
{
    match outcome {
        Ok(true) => {
            let mut r = "✅ Cancelled job #".to_owned();
            r.append(signed_decimal_text(job_id).as_str());
            r
        },
        Ok(false) => {
            let mut r = "Job #".to_owned();
            r.append(signed_decimal_text(job_id).as_str());
            r.append(" not found.");
            r
        },
        Err(e) => {
            let mut r = "Error: ".to_owned();
            r.append(e.as_str());
            r
        },
    }
}

/// The reply to `/schedule` once the job is scheduled under `job_id`.
pub fn scheduled_reply(job_id: i64, job: &CronJobData) -> (r: String)
    ensures
        r@ == "✅ Scheduled job #"@ + signed_decimal(job_id as int) + ": "@ + job.task@
            + "\nSchedule: "@ + job.schedule@ + "\nMessage: "@ + job.message@,
{
    let mut r = "✅ Scheduled job #".to_owned();
    r.append(signed_decimal_text(job_id).as_str());
    r.append(": ");
    r.append(job.task.as_str());
    r.append("\nSchedule: ");
    r.append(job.schedule.as_str());
    r.append("\nMessage: ");
    r.append(job.message.as_str());
    r
}

/// The reply to `/schedule` where the schedule is refused for the reason
/// `error`.
pub fn invalid_schedule_reply(error: &str) -> (r: String)
    ensures
        r@ == "❌ Invalid cron expression: "@ + error@,
{
    let mut r = "❌ Invalid cron expression: ".to_owned();
    r.append(error);
    r
}

/// The notice that a job found in a reply was scheduled under `job_id`.
pub fn job_scheduled_notice(job_id: i64, job: &CronJobData) -> (r: String)
    ensures
        r@ == "✅ Scheduled job #"@ + signed_decimal(job_id as int) + ": "@ + job.task@
            + "\nSchedule: "@ + job.schedule@,
{
    let mut r = "✅ Scheduled job #".to_owned();
    r.append(signed_decimal_text(job_id).as_str());
    r.append(": ");
    r.append(job.task.as_str());
    r.append("\nSchedule: ");
    r.append(job.schedule.as_str());
    r
}

/// The notice that a job found in a reply could not be scheduled.
pub fn job_refused_notice(error: &str) -> (r: String)
    ensures
        r@ == "❌ Error scheduling: "@ + error@,
{
    let mut r = "❌ Error scheduling: ".to_owned();
    r.append(error);
    r
}

/// The notice of an error in a `cron` block of a reply.
pub fn cron_error_notice(error: &str) -> (r: String)
    ensures
        r@ == "⚠️ Cron error: "@ + error@,
{
    let mut r = "⚠️ Cron error: ".to_owned();
    r.append(error);
    r
}

/// The notice that a file was saved under `name`.
pub fn saved_notice(name: &str) -> (r: String)
    ensures
        r@ == "💾 Saved "@ + name@ + " to workspace"@,
{
    let mut r = "💾 Saved ".to_owned();
    r.append(name);
    r.append(" to workspace");
    r
}

/// The notice that a file could not be saved.
pub fn save_failed_notice(error: &str) -> (r: String)
    ensures
        r@ == "❌ Error saving file: "@ + error@,
{
    let mut r = "❌ Error saving file: ".to_owned();
    r.append(error);
    r
}

/// The notice that a fact was remembered.
pub fn remembered_notice(fact: &str) -> (r: String)
    ensures
        r@ == "🧠 Remembered: "@ + fact@,
{
    let mut r = "🧠 Remembered: ".to_owned();
    r.append(fact);
    r
}

/// The body of the first code block of message `m`, where it is the
/// assistant's and holds one.
pub open spec fn code_of(m: MessageView) -> Option<Seq<char>> {
    let blocks = code_blocks(regex_captures(CODE_BLOCK@, m.content));
    if m.role == "assistant"@ && blocks.len() > 0 {
        Some(blocks[0].1)
    } else {
        None
    }
}

/// The code to save on request: the first code block of the latest message
/// of the assistant that holds any, among the first `upto` of `history`.
pub open spec fn latest_code(history: Seq<MessageView>, upto: int) -> Option<Seq<char>>
    decreases upto,
{
    if upto <= 0 || upto > history.len() {
        None
    } else if code_of(history[upto - 1]) is Some {
        code_of(history[upto - 1])
    } else {
        latest_code(history, upto - 1)
    }
}

/// The code to save on request from the conversation `history`, oldest
/// message first: the first code block of the latest message of the assistant
/// that holds one.
pub fn last_code_block(history: &Vec<Message>) -> (r: Option<String>)
    ensures
        r.deep_view() == latest_code(history.deep_view(), history.len() as int),
{
    let mut i: usize = history.len();
    while i > 0
        invariant
            i <= history.len(),
            latest_code(history.deep_view(), history.len() as int) == latest_code(
                history.deep_view(),
                i as int,
            ),
        decreases i,
    {
        let m = &history[i - 1];
        proof {
            assert(history.deep_view()[i - 1] == m@);
        }
        if same_text(m.role.as_str(), "assistant") {
            let blocks = Agent::extract_code_blocks(m.content.as_str());
            if blocks.len() > 0 {
                assert(blocks.deep_view()[0] == blocks@[0].deep_view());
                return Some(blocks[0].1.clone());
            }
        }
        i -= 1;
    }
    None
}

/// The messages that a text goes out in: pieces of at most `CHUNK_BYTES`
/// bytes of its UTF-8 form, each decoded by itself. A text that fits goes out
/// as it is, an empty one not at all.
pub fn message_chunks(message: &str) -> (r: Vec<String>)
    ensures
        r.deep_view() == pieces(message@, CHUNK_BYTES as nat),
        0 < utf8_len(message@) <= CHUNK_BYTES ==> r.deep_view() == seq![message@],
        utf8_len(message@) == 0 ==> r@.len() == 0,
{
    split_pieces(message, CHUNK_BYTES)
}

} // verus!
