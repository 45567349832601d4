use rustyclaw::agent::CronJobData;
use rustyclaw::config::OllamaConfig;
use rustyclaw::memory::{CronJob, Message};
use rustyclaw::telegram::{
    cancel_reply, classify, cron_error_notice, forget_reply, invalid_schedule_reply,
    job_refused_notice, job_scheduled_notice, jobs_reply, last_code_block, memory_reply,
    message_chunks, remembered_notice, save_failed_notice, saved_notice, scheduled_reply,
    static_reply, status_reply, task_label, workspace_reply, Command, Incoming, NO_CODE_TEXT,
    SCHEDULE_USAGE,
};

fn stored(id: i64, schedule: &str, task: &str) -> CronJob {
    CronJob {
        id,
        schedule: schedule.to_string(),
        task: task.to_string(),
        message: "m".to_string(),
        enabled: true,
    }
}

fn said(role: &str, content: &str) -> Message {
    Message { role: role.to_string(), content: content.to_string() }
}

#[test]
fn commands_with_a_fixed_reply() {
    assert_eq!(
        static_reply(Command::Start).unwrap(),
        "🦀 RustyClaw is online!\n\nI'm your local AI assistant running in Rust.\n\nJust send me a message to chat, or use:\n/status — System status\n/jobs — List scheduled tasks\n/schedule — Create a cron job\n/workspace — List generated files\n/clear — Clear conversation history\n/help — Show all commands"
    );
    assert_eq!(static_reply(Command::Cancel).unwrap(), "Usage: /cancel <job_id>");
    assert_eq!(
        static_reply(Command::Save).unwrap(),
        "Usage: /save filename.py\n\nThis will save the last code block from my response."
    );
    assert!(static_reply(Command::Schedule).unwrap().ends_with("Give me a motivational quote"));
    assert!(static_reply(Command::Help).unwrap().starts_with("🦀 RustyClaw Commands\n\n/start"));
    assert_eq!(static_reply(Command::Clear).unwrap(), "🧹 Conversation history cleared.");
    for cmd in
        [Command::Status, Command::Jobs, Command::Workspace, Command::Memory, Command::Forget]
    {
        assert!(static_reply(cmd).is_none());
    }
}

#[test]
fn status_reply_lists_the_settings_and_counts() {
    let config = OllamaConfig::default();
    assert_eq!(
        status_reply(&config, 2, 13),
        "🦀 RustyClaw Status\n\nModel: tinyllama\nHost: http://localhost:11434\nContext: 4096 tokens\nScheduled jobs: 2\nWorkspace files: 13"
    );
}

#[test]
fn jobs_reply_lists_each_job() {
    assert_eq!(jobs_reply(&Vec::new()), "No scheduled jobs. Ask me to schedule something!");
    let jobs = vec![stored(1, "0 9 * * *", "wake"), stored(12, "*/5 * * * *", "ping")];
    assert_eq!(
        jobs_reply(&jobs),
        "🕐 Scheduled Jobs\n\n#1 — wake\n  Schedule: 0 9 * * *\n#12 — ping\n  Schedule: */5 * * * *"
    );
}

#[test]
fn workspace_reply_lists_each_file() {
    assert_eq!(workspace_reply(&Vec::new()), "Workspace is empty. Ask me to write some code!");
    let files = vec![
        ("a.py".to_string(), format!("{:.1}", 1536.0_f64 / 1024.0)),
        ("b.txt".to_string(), format!("{:.1}", 10.0_f64 / 1024.0)),
    ];
    assert_eq!(workspace_reply(&files), "📁 Workspace Files\n\na.py (1.5 KB)\nb.txt (0.0 KB)");
}

#[test]
fn memory_reply_warns_of_a_large_memory() {
    assert_eq!(
        memory_reply("", false, 0),
        "🧠 My Memory\n\nNo memories saved yet. Tell me something about yourself!"
    );
    assert_eq!(memory_reply("- x\n", false, 1), "🧠 My Memory (1 lines)\n\n- x\n");
    assert_eq!(
        memory_reply("- x\n", true, 101),
        "🧠 My Memory (101 lines)\n\n⚠️ Memory is getting large!\n\n- x\n"
    );
}

#[test]
fn forget_reply_says_how_it_went() {
    assert_eq!(forget_reply(true), "🧹 All memories have been forgotten.");
    assert_eq!(forget_reply(false), "❌ Failed to clear memory.");
}

#[test]
fn cancel_texts_are_told_apart() {
    assert!(matches!(classify("/cancel 42"), Incoming::Cancel { job_id: Some(42) }));
    assert!(matches!(classify("/cancel   -7  extra"), Incoming::Cancel { job_id: Some(-7) }));
    assert!(matches!(classify("/cancel abc"), Incoming::Cancel { job_id: None }));
    assert!(matches!(classify("/cancel "), Incoming::Cancel { job_id: None }));
    assert!(matches!(classify("/cancel 99999999999999999999"), Incoming::Cancel { job_id: None }));
    assert!(matches!(classify("/cancel"), Incoming::Chat));
    assert!(matches!(classify(" /cancel 1"), Incoming::Chat));
    assert!(matches!(classify("/cancelled 1"), Incoming::Chat));
}

#[test]
fn schedule_texts_give_a_schedule_and_a_message() {
    match classify("/schedule */3 * * * *   Tell me  a joke") {
        Incoming::Schedule { request: Some(job) } => {
            assert_eq!(job.schedule, "*/3 * * * *");
            assert_eq!(job.message, "Tell me a joke");
            assert_eq!(job.task, "Tell me a joke");
        }
        other => panic!("{:?}", other),
    }
    assert!(matches!(classify("/schedule 0 9 * * *"), Incoming::Schedule { request: None }));
    assert!(matches!(classify("/schedule "), Incoming::Schedule { request: None }));
    assert_eq!(SCHEDULE_USAGE, "Usage: /schedule <cron> <message>");
}

#[test]
fn a_long_message_is_cut_for_the_label() {
    let fifty = "a".repeat(50);
    assert_eq!(task_label(&fifty), fifty);
    let longer = "b".repeat(51);
    assert_eq!(task_label(&longer), format!("{}...", "b".repeat(47)));
    let text = format!("/schedule 0 9 * * * {}", longer);
    match classify(&text) {
        Incoming::Schedule { request: Some(job) } => {
            assert_eq!(job.message, longer);
            assert_eq!(job.task, format!("{}...", &longer[..47]));
        }
        other => panic!("{:?}", other),
    }
}

#[test]
fn a_label_is_never_cut_inside_a_character() {
    let text = "é".repeat(26);
    assert_eq!(text.len(), 52);
    assert_eq!(task_label(&text), format!("{}...", "é".repeat(23)));
    let fits = "é".repeat(25);
    assert_eq!(task_label(&fits), fits);
    let mixed = format!("x{}", "é".repeat(25));
    assert_eq!(task_label(&mixed), format!("{}...", &mixed[..47]));
}

#[test]
fn save_texts_name_a_file() {
    match classify("/save out.py now") {
        Incoming::Save { filename: Some(name) } => assert_eq!(name, "out.py"),
        other => panic!("{:?}", other),
    }
    assert!(matches!(classify("/save "), Incoming::Save { filename: None }));
    assert!(matches!(classify("hello /save x"), Incoming::Chat));
    assert!(matches!(classify(""), Incoming::Chat));
}

#[test]
fn replies_to_cancelling() {
    assert_eq!(cancel_reply(5, Ok(true)), "✅ Cancelled job #5");
    assert_eq!(cancel_reply(5, Ok(false)), "Job #5 not found.");
    assert_eq!(cancel_reply(5, Err("locked".to_string())), "Error: locked");
}

#[test]
fn replies_to_scheduling() {
    let job = CronJobData {
        schedule: "0 9 * * *".to_string(),
        task: "wake".to_string(),
        message: "wake up".to_string(),
    };
    assert_eq!(
        scheduled_reply(3, &job),
        "✅ Scheduled job #3: wake\nSchedule: 0 9 * * *\nMessage: wake up"
    );
    assert_eq!(job_scheduled_notice(3, &job), "✅ Scheduled job #3: wake\nSchedule: 0 9 * * *");
    assert_eq!(invalid_schedule_reply("bad"), "❌ Invalid cron expression: bad");
    assert_eq!(job_refused_notice("bad"), "❌ Error scheduling: bad");
    assert_eq!(cron_error_notice("oops"), "⚠️ Cron error: oops");
}

#[test]
fn notices_of_saving_and_remembering() {
    assert_eq!(saved_notice("a_1.py"), "💾 Saved a_1.py to workspace");
    assert_eq!(save_failed_notice("disk full"), "❌ Error saving file: disk full");
    assert_eq!(remembered_notice("likes tea"), "🧠 Remembered: likes tea");
    assert_eq!(NO_CODE_TEXT, "❌ No code blocks found in recent conversation.");
}

#[test]
fn the_latest_code_block_of_the_assistant_is_saved() {
    let history = vec![
        said("assistant", "```python\nold()\n```"),
        said("user", "```python\nmine()\n```"),
        said("assistant", "first\n```rust\nnew()\n```\nthen\n```c\nother()\n```"),
        said("assistant", "no code here"),
    ];
    assert_eq!(last_code_block(&history), Some("new()".to_string()));
    assert_eq!(last_code_block(&history[..2].to_vec()), Some("old()".to_string()));
    assert_eq!(last_code_block(&history[1..2].to_vec()), None);
    assert_eq!(last_code_block(&Vec::new()), None);
}

#[test]
fn a_short_message_goes_out_whole() {
    assert_eq!(message_chunks("hello 🦀"), vec!["hello 🦀".to_string()]);
    assert!(message_chunks("").is_empty());
    let exact = "x".repeat(4000);
    assert_eq!(message_chunks(&exact), vec![exact.clone()]);
}

#[test]
fn a_long_message_goes_out_in_pieces_of_4000_bytes() {
    let text = "y".repeat(9000);
    let chunks = message_chunks(&text);
    assert_eq!(chunks.len(), 3);
    assert_eq!(chunks[0].len(), 4000);
    assert_eq!(chunks[1].len(), 4000);
    assert_eq!(chunks[2].len(), 1000);
    assert_eq!(chunks.concat(), text);
}

#[test]
fn a_character_cut_in_two_shows_as_replacements() {
    let text = format!("{}é", "z".repeat(3999));
    let expected: Vec<String> = text
        .as_bytes()
        .chunks(4000)
        .map(|c| String::from_utf8_lossy(c).to_string())
        .collect();
    let chunks = message_chunks(&text);
    assert_eq!(chunks, expected);
    assert_eq!(chunks.len(), 2);
    assert!(chunks[0].ends_with('\u{fffd}'));
    assert_eq!(chunks[1], "\u{fffd}");
}
