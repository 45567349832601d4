use rustyclaw::agent::CronJobData;
use rustyclaw::config::OllamaConfig;
use rustyclaw::memory::{CronJob, Message};
use rustyclaw::tui::{Key, KeyOutcome, TuiApp, TuiCommand};

fn lines(app: &TuiApp) -> Vec<(String, bool)> {
    app.messages().clone()
}

fn line(text: &str, is_user: bool) -> (String, bool) {
    (text.to_string(), is_user)
}

fn typed(app: &mut TuiApp, text: &str) {
    for c in text.chars() {
        assert!(matches!(app.on_key(Key::Char(c)), KeyOutcome::Continue));
    }
}

#[test]
fn a_new_screen_is_empty() {
    let app = TuiApp::new();
    assert!(app.messages().is_empty());
    assert_eq!(app.input(), "");
    assert!(!app.processing());
}

#[test]
fn turns_are_shown_under_the_speaker() {
    let mut app = TuiApp::new();
    app.add_message("user", "hi");
    app.add_message("assistant", "hello");
    app.add_message("system", "x");
    app.add_status("ℹ️", "note");
    assert_eq!(
        lines(&app),
        vec![
            line("You: hi", true),
            line("RustyClaw: hello", false),
            line("RustyClaw: x", false),
            line("ℹ️ note", false)
        ]
    );
}

#[test]
fn welcome_shows_two_notices() {
    let mut app = TuiApp::new();
    app.welcome();
    assert_eq!(
        lines(&app),
        vec![line("🦀 Welcome to RustyClaw!", false), line("ℹ️ Type /help for commands", false)]
    );
}

#[test]
fn typing_edits_the_input_line() {
    let mut app = TuiApp::new();
    typed(&mut app, "héllo");
    assert_eq!(app.input(), "héllo");
    assert!(matches!(app.on_key(Key::Backspace), KeyOutcome::Continue));
    assert_eq!(app.input(), "héll");
    assert!(matches!(app.on_key(Key::Other), KeyOutcome::Continue));
    assert_eq!(app.input(), "héll");
    match app.on_key(Key::Enter) {
        KeyOutcome::Submit(text) => assert_eq!(text, "héll"),
        other => panic!("{:?}", other),
    }
    assert_eq!(app.input(), "");
    assert!(matches!(app.on_key(Key::Enter), KeyOutcome::Continue));
    assert!(matches!(app.on_key(Key::Backspace), KeyOutcome::Continue));
    assert_eq!(app.input(), "");
}

#[test]
fn escape_and_interrupt_quit() {
    let mut app = TuiApp::new();
    typed(&mut app, "abc");
    assert!(matches!(app.on_key(Key::Escape), KeyOutcome::Quit));
    assert!(matches!(app.on_key(Key::Interrupt), KeyOutcome::Quit));
    assert_eq!(app.input(), "abc");
}

#[test]
fn commands_are_known_by_their_first_word() {
    assert_eq!(TuiApp::parse_command("/quit"), TuiCommand::Quit);
    assert_eq!(TuiApp::parse_command("/EXIT now"), TuiCommand::Quit);
    assert_eq!(TuiApp::parse_command("/Clear"), TuiCommand::Clear);
    assert_eq!(TuiApp::parse_command("/status"), TuiCommand::Status);
    assert_eq!(TuiApp::parse_command("/jobs"), TuiCommand::Jobs);
    assert_eq!(TuiApp::parse_command("/workspace"), TuiCommand::Workspace);
    assert_eq!(TuiApp::parse_command("/memory"), TuiCommand::Memory);
    assert_eq!(TuiApp::parse_command("/forget"), TuiCommand::Forget);
    assert_eq!(TuiApp::parse_command("/help me"), TuiCommand::Help);
    assert_eq!(TuiApp::parse_command("/unknown"), TuiCommand::Chat);
    assert_eq!(TuiApp::parse_command("/"), TuiCommand::Chat);
    assert_eq!(TuiApp::parse_command("hello /quit"), TuiCommand::Chat);
    assert_eq!(TuiApp::parse_command(" /quit"), TuiCommand::Chat);
    assert_eq!(TuiApp::command_for("/QUIT"), TuiCommand::Chat);
    assert_eq!(TuiApp::command_for("/quit"), TuiCommand::Quit);
}

#[test]
fn clear_empties_the_screen() {
    let mut app = TuiApp::new();
    app.welcome();
    typed(&mut app, "x");
    app.show_cleared();
    assert_eq!(lines(&app), vec![line("🧹 Chat history cleared", false)]);
    assert_eq!(app.input(), "x");
}

#[test]
fn status_shows_the_settings_and_counts() {
    let mut app = TuiApp::new();
    app.show_status(&OllamaConfig::default(), 3, 0);
    assert_eq!(
        lines(&app),
        vec![line(
            "🦀 Model: tinyllama | Host: http://localhost:11434 | Jobs: 3 | Files: 0",
            false
        )]
    );
}

#[test]
fn jobs_and_files_are_listed() {
    let mut app = TuiApp::new();
    app.show_jobs(&Vec::new());
    app.show_files(&Vec::new());
    let job = CronJob {
        id: 4,
        schedule: "0 9 * * *".to_string(),
        task: "wake".to_string(),
        message: "m".to_string(),
        enabled: true,
    };
    app.show_jobs(&vec![job.clone(), CronJob { id: -1, ..job }]);
    app.show_files(&vec![("a.py".to_string(), "1.5".to_string())]);
    assert_eq!(
        lines(&app),
        vec![
            line("ℹ️ No scheduled jobs", false),
            line("ℹ️ Workspace is empty", false),
            line("🕐 #4: wake (0 9 * * *)", false),
            line("🕐 #-1: wake (0 9 * * *)", false),
            line("📁 a.py (1.5 KB)", false)
        ]
    );
}

#[test]
fn memory_shows_at_most_ten_lines() {
    let mut app = TuiApp::new();
    app.show_memory("");
    assert_eq!(lines(&app), vec![line("🧠 No memories saved yet", false)]);
    let mut short = TuiApp::new();
    short.show_memory("- a\r\n\n- b");
    assert_eq!(lines(&short), vec![line("- a", false), line("", false), line("- b", false)]);
    let mut long = TuiApp::new();
    let facts: String = (0..12).map(|i| format!("- fact {}\n", i)).collect();
    long.show_memory(&facts);
    let expected: Vec<(String, bool)> =
        facts.lines().take(10).map(|l| (l.to_string(), false)).collect();
    assert_eq!(lines(&long), expected);
}

#[test]
fn forget_and_help() {
    let mut app = TuiApp::new();
    app.show_forgotten(true);
    app.show_forgotten(false);
    app.show_help();
    let shown = lines(&app);
    assert_eq!(shown[0], line("🧹 All memories forgotten", false));
    assert_eq!(shown[1], line("❌ Failed to clear memory", false));
    assert_eq!(shown.len(), 2 + 9);
    assert_eq!(shown[2], line("Commands:", false));
    assert_eq!(shown[3], line("/quit - Exit", false));
    assert_eq!(shown[10], line("/help - This message", false));
}

#[test]
fn a_stored_conversation_is_replayed_clean() {
    let mut app = TuiApp::new();
    app.replay_history(&Vec::new());
    assert!(app.messages().is_empty());
    let history = vec![
        Message { role: "user".to_string(), content: "```memory\nkeep me\n```".to_string() },
        Message {
            role: "assistant".to_string(),
            content: "Noted.\n```memory\nlikes tea\n```".to_string(),
        },
    ];
    app.replay_history(&history);
    assert_eq!(
        lines(&app),
        vec![
            line("── Previous Conversation ──", false),
            line("You: ```memory\nkeep me\n```", true),
            line("RustyClaw: Noted.", false)
        ]
    );
}

#[test]
fn a_turn_begins_and_ends() {
    let mut app = TuiApp::new();
    app.begin_message("what time is it");
    assert!(app.processing());
    let relay = app.finish_message("what time is it", "Noon.");
    assert!(!app.processing());
    assert_eq!(relay, "💻 TUI: what time is it\n\nNoon.");
    assert_eq!(lines(&app), vec![line("You: what time is it", true), line("RustyClaw: Noon.", false)]);
    app.begin_message("again");
    let relay = app.finish_message("again", "");
    assert_eq!(relay, "💻 TUI: again\n\n");
    assert_eq!(app.messages().len(), 3);
}

#[test]
fn notices_of_what_a_reply_led_to() {
    let mut app = TuiApp::new();
    let job = CronJobData {
        schedule: "0 9 * * *".to_string(),
        task: "wake".to_string(),
        message: "m".to_string(),
    };
    app.show_cron_error("Invalid JSON in cron block");
    app.show_scheduled(7, &job);
    app.show_schedule_error("bad");
    app.show_saved("a.py");
    app.show_save_error("full");
    app.show_remembered("likes tea");
    assert_eq!(
        lines(&app),
        vec![
            line("⚠️ Cron error: Invalid JSON in cron block", false),
            line("✅ Scheduled job #7: wake (0 9 * * *)", false),
            line("❌ Error scheduling: bad", false),
            line("💾 Saved a.py to workspace", false),
            line("❌ Error saving file: full", false),
            line("🧠 Remembered: likes tea", false)
        ]
    );
}
