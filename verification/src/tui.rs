//! What the terminal frontend shows, and what its keys and commands do.
use crate::agent::blocks::{cleaned, CronJobData};
use crate::agent::Agent;
use crate::config::OllamaConfig;
use crate::memory::{CronJob, JobView, Message, MessageView};
use crate::text::{has_prefix, lowercased, pop_char, push_char, same_text, starts_with, to_lower};
use crate::text::lines::{lines, split_lines};
use crate::text::number::{decimal, decimal_text, signed_decimal, signed_decimal_text};
use crate::text::space::{split_words, words};
use vstd::prelude::*;

verus! {

/// A key press, as far as the terminal frontend tells keys apart.
#[derive(Debug, Clone, Copy, PartialEq, Eq, Structural)]
pub enum Key {
    /// A character key.
    Char(char),
    /// The letter c with the control key held.
    Interrupt,
    Enter,
    Backspace,
    Escape,
    /// Any other key.
    Other,
}

/// What a key press leads to.
#[derive(Debug, Clone)]
pub enum KeyOutcome {
    /// Go on reading keys.
    Continue,
    /// Leave the terminal frontend.
    Quit,
    /// The line that was entered is to be acted on.
    Submit(String),
}

/// What a `KeyOutcome` holds.
pub ghost enum KeyOutcomeView {
    Continue,
    Quit,
    Submit(Seq<char>),
}

impl View for KeyOutcome {
    type V = KeyOutcomeView;

    open spec fn view(&self) -> KeyOutcomeView {
        match self {
            KeyOutcome::Continue => KeyOutcomeView::Continue,
            KeyOutcome::Quit => KeyOutcomeView::Quit,
            KeyOutcome::Submit(line) => KeyOutcomeView::Submit(line@),
        }
    }
}

/// What an entered line asks for.
#[derive(Debug, Clone, Copy, PartialEq, Eq, Structural)]
pub enum TuiCommand {
    Quit,
    Clear,
    Status,
    Jobs,
    Workspace,
    Memory,
    Forget,
    Help,
    /// No command: the line is a turn of the conversation.
    Chat,
}

/// What the terminal frontend shows on `/help`, line by line.
pub const TUI_HELP: &'static str =
    "Commands:\n\
     /quit - Exit\n\
     /clear - Clear history\n\
     /status - Show status\n\
     /jobs - List cron jobs\n\
     /workspace - List files\n\
     /memory - View memories\n\
     /forget - Clear memories\n\
     /help - This message";

/// What stands above the replayed conversation.
pub const PREVIOUS_CONVERSATION: &'static str = "── Previous Conversation ──";

/// How many lines of the remembered facts `/memory` shows.
pub const MEMORY_PREVIEW_LINES: usize = 10;

/// The command that a first word names, the word in lower case.
pub open spec fn command_named(word: Seq<char>) -> TuiCommand {
    if word == "/quit"@ || word == "/exit"@ {
        TuiCommand::Quit
    } else if word == "/clear"@ {
        TuiCommand::Clear
    } else if word == "/status"@ {
        TuiCommand::Status
    } else if word == "/jobs"@ {
        TuiCommand::Jobs
    } else if word == "/workspace"@ {
        TuiCommand::Workspace
    } else if word == "/memory"@ {
        TuiCommand::Memory
    } else if word == "/forget"@ {
        TuiCommand::Forget
    } else if word == "/help"@ {
        TuiCommand::Help
    } else {
        TuiCommand::Chat
    }
}

/// What the line `input` asks for: a line that begins with a slash is a
/// command where its first word, in lower case, names one; every other line
/// is a turn of the conversation.
pub open spec fn command_of(input: Seq<char>) -> TuiCommand {
    if has_prefix(input, "/"@) && words(input).len() > 0 {
        command_named(lowercased(words(input)[0]))
    } else {
        TuiCommand::Chat
    }
}

/// A shown line for a turn of the conversation by `role`.
pub open spec fn message_line(role: Seq<char>, content: Seq<char>) -> (Seq<char>, bool) {
    if role == "user"@ {
        ("You: "@ + content, true)
    } else {
        ("RustyClaw: "@ + content, false)
    }
}

/// A shown line for a notice.
pub open spec fn status_line(emoji: Seq<char>, message: Seq<char>) -> (Seq<char>, bool) {
    (emoji + " "@ + message, false)
}

/// The shown lines for unmarked texts.
pub open spec fn plain_lines(texts: Seq<Seq<char>>) -> Seq<(Seq<char>, bool)> {
    Seq::new(texts.len(), |i: int| (texts[i], false))
}

/// The content that is replayed for a stored turn: the assistant's replies
/// are cleaned of their action blocks.
pub open spec fn replayed_content(m: MessageView) -> Seq<char> {
    if m.role == "assistant"@ {
        cleaned(m.content)
    } else {
        m.content
    }
}

/// The shown lines for the turns of a stored conversation.
pub open spec fn replayed_lines(history: Seq<MessageView>) -> Seq<(Seq<char>, bool)> {
    Seq::new(history.len(), |i: int| message_line(history[i].role, replayed_content(history[i])))
}

/// What the replay of a stored conversation adds to the screen: nothing for
/// an empty one, else a heading and the turns.
pub open spec fn replay(history: Seq<MessageView>) -> Seq<(Seq<char>, bool)> {
    if history.len() == 0 {
        Seq::empty()
    } else {
        seq![(PREVIOUS_CONVERSATION@, false)] + replayed_lines(history)
    }
}

/// The notice for one job of the job list.
pub open spec fn job_status(job: JobView) -> (Seq<char>, bool) {
    status_line(
        "🕐"@,
        "#"@ + signed_decimal(job.id as int) + ": "@ + job.task + " ("@ + job.schedule + ")"@,
    )
}

/// What `/jobs` adds to the screen.
pub open spec fn jobs_shown(jobs: Seq<JobView>) -> Seq<(Seq<char>, bool)> {
    if jobs.len() == 0 {
        seq![status_line("ℹ️"@, "No scheduled jobs"@)]
    } else {
        Seq::new(jobs.len(), |i: int| job_status(jobs[i]))
    }
}

/// What `/workspace` adds to the screen for files given by name and by size
/// in kilobytes, the size written out.
pub open spec fn files_shown(files: Seq<(Seq<char>, Seq<char>)>) -> Seq<(Seq<char>, bool)> {
    if files.len() == 0 {
        seq![status_line("ℹ️"@, "Workspace is empty"@)]
    } else {
        Seq::new(
            files.len(),
            |i: int| status_line("📁"@, files[i].0 + " ("@ + files[i].1 + " KB)"@),
        )
    }
}

/// What `/memory` adds to the screen: the first lines of the facts, or a
/// notice that there are none.
pub open spec fn memory_shown(content: Seq<char>) -> Seq<(Seq<char>, bool)> {
    if content.len() == 0 {
        seq![status_line("🧠"@, "No memories saved yet"@)]
    } else if lines(content).len() > MEMORY_PREVIEW_LINES {
        plain_lines(lines(content).take(MEMORY_PREVIEW_LINES as int))
    } else {
        plain_lines(lines(content))
    }
}

/// What goes to the chat of what happened in the terminal.
pub open spec fn relay_text(user_text: Seq<char>, shown: Seq<char>) -> Seq<char> {
    "💻 TUI: "@ + user_text + "\n\n"@ + shown
}

/// What the terminal frontend shows and edits: the lines of the chat, each
/// marked as the user's or not, the line being typed, and whether a reply
/// is being awaited.
pub struct TuiApp {
    messages: Vec<(String, bool)>,
    input: String,
    processing: bool,
}

/// What a `TuiApp` holds.
pub ghost struct TuiView {
    pub messages: Seq<(Seq<char>, bool)>,
    pub input: Seq<char>,
    pub processing: bool,
}

impl TuiView {
    /// The state after `key` is pressed.
    pub open spec fn after_key(self, key: Key) -> TuiView {
        match key {
            Key::Char(c) => TuiView { input: self.input.push(c), ..self },
            Key::Backspace => TuiView {
                input: if self.input.len() > 0 {
                    self.input.drop_last()
                } else {
                    self.input
                },
                ..self
            },
            Key::Enter => TuiView { input: Seq::empty(), ..self },
            _ => self,
        }
    }

    /// What pressing `key` leads to.
    pub open spec fn key_outcome(self, key: Key) -> KeyOutcomeView {
        match key {
            Key::Interrupt => KeyOutcomeView::Quit,
            Key::Escape => KeyOutcomeView::Quit,
            Key::Enter => if self.input.len() > 0 {
                KeyOutcomeView::Submit(self.input)
            } else {
                KeyOutcomeView::Continue
            },
            _ => KeyOutcomeView::Continue,
        }
    }

    /// The state with `shown` added to the lines of the chat.
    pub open spec fn showing(self, shown: Seq<(Seq<char>, bool)>) -> TuiView {
        TuiView { messages: self.messages + shown, ..self }
    }
}

impl View for TuiApp {
    type V = TuiView;

    closed spec fn view(&self) -> TuiView {
        TuiView {
            messages: self.messages.deep_view(),
            input: self.input@,
            processing: self.processing,
        }
    }
}

impl TuiApp {
    /// An empty screen.
    pub fn new() -> (r: TuiApp)
        ensures
            r@.messages == Seq::<(Seq<char>, bool)>::empty(),
            r@.input == Seq::<char>::empty(),
            !r@.processing,
    {
        let r = TuiApp { messages: Vec::new(), input: String::new(), processing: false };
        assert(r.messages.deep_view() =~= Seq::<(Seq<char>, bool)>::empty());
        r
    }

    /// The lines of the chat, oldest first, each with whether it is the
    /// user's.
    pub fn messages(&self) -> (r: &Vec<(String, bool)>)
        ensures
            r.deep_view() == self@.messages,
    {
        &self.messages
    }

    /// The line being typed.
    pub fn input(&self) -> (r: &str)
        ensures
            r@ == self@.input,
    {
        self.input.as_str()
    }

    /// Whether a reply is being awaited.
    pub fn processing(&self) -> (r: bool)
        ensures
            r == self@.processing,
    {
        self.processing
    }

    fn show(&mut self, text: String, is_user: bool)
        ensures
            final(self)@ == old(self)@.showing(seq![(text@, is_user)]),
    {
        let ghost before = self.messages.deep_view();
        self.messages.push((text, is_user));
        assert(self.messages.deep_view() =~= before + seq![(text@, is_user)]);
    }

    /// Shows a turn of the conversation: the user's under `You`, any other
    /// under `RustyClaw`.
    pub fn add_message(&mut self, role: &str, content: &str)
        ensures
            final(self)@ == old(self)@.showing(seq![message_line(role@, content@)]),
    {
        let is_user = same_text(role, "user");
        let mut line = if is_user {
            "You: ".to_owned()
        } else {
            "RustyClaw: ".to_owned()
        };
        line.append(content);
        self.show(line, is_user);
    }

    /// Shows a notice behind `emoji`.
    pub fn add_status(&mut self, emoji: &str, message: &str)
        ensures
            final(self)@ == old(self)@.showing(seq![status_line(emoji@, message@)]),
    {
        let mut line = emoji.to_owned();
        line.append(" ");
        line.append(message);
        self.show(line, false);
    }

    /// Shows each of `texts` as a line of its own.
    pub fn add_lines(&mut self, texts: &Vec<String>)
        ensures
            final(self)@ == old(self)@.showing(plain_lines(texts.deep_view())),
    {
        let n = texts.len();
        let ghost all = plain_lines(texts.deep_view());
        let mut i: usize = 0;
        assert(self@ == old(self)@.showing(all.take(0))) by {
            assert(old(self)@.messages + all.take(0) =~= old(self)@.messages);
        }
        while i < n
            invariant
                n == texts.len(),
                i <= n,
                all == plain_lines(texts.deep_view()),
                self@ == old(self)@.showing(all.take(i as int)),
            decreases n - i,
        {
            self.show(texts[i].clone(), false);
            proof {
                assert(texts.deep_view()[i as int] == texts@[i as int]@);
                assert(old(self)@.messages + all.take(i as int) + seq![all[i as int]] =~= old(
                    self,
                )@.messages + all.take(i + 1));
            }
            i += 1;
        }
        assert(all.take(n as int) =~= all);
    }

    /// Greets the user on an empty screen.
    pub fn welcome(&mut self)
        ensures
            final(self)@ == old(self)@.showing(
                seq![
                    status_line("🦀"@, "Welcome to RustyClaw!"@),
                    status_line("ℹ️"@, "Type /help for commands"@),
                ],
            ),
    {
        let ghost before = self@.messages;
        self.add_status("🦀", "Welcome to RustyClaw!");
        self.add_status("ℹ️", "Type /help for commands");
        assert(before + seq![status_line("🦀"@, "Welcome to RustyClaw!"@)] + seq![
            status_line("ℹ️"@, "Type /help for commands"@),
        ] =~= before + seq![
            status_line("🦀"@, "Welcome to RustyClaw!"@),
            status_line("ℹ️"@, "Type /help for commands"@),
        ]);
    }

    /// Shows a stored conversation under a heading, the assistant's replies
    /// without their action blocks. An empty conversation shows nothing.
    pub fn replay_history(&mut self, history: &Vec<Message>)
        ensures
            final(self)@ == old(self)@.showing(replay(history.deep_view())),
    {
        let n = history.len();
        if n == 0 {
            assert(self@.messages + replay(history.deep_view()) =~= self@.messages);
            return ;
        }
        let ghost before = self@.messages;
        let ghost head = seq![(PREVIOUS_CONVERSATION@, false)];
        let ghost all = replayed_lines(history.deep_view());
        self.show(PREVIOUS_CONVERSATION.to_owned(), false);
        let mut i: usize = 0;
        assert(before + head =~= before + (head + all.take(0)));
        while i < n
            invariant
                n == history.len(),
                i <= n,
                before == old(self)@.messages,
                head == seq![(PREVIOUS_CONVERSATION@, false)],
                all == replayed_lines(history.deep_view()),
                self@ == old(self)@.showing(head + all.take(i as int)),
            decreases n - i,
        {
            let m = &history[i];
            proof {
                assert(history.deep_view()[i as int] == m@);
            }
            if same_text(m.role.as_str(), "assistant") {
                let content = Agent::clean_response(m.content.as_str());
                self.add_message(m.role.as_str(), content.as_str());
            } else {
                self.add_message(m.role.as_str(), m.content.as_str());
            }
            proof {
                assert(before + (head + all.take(i as int)) + seq![all[i as int]] =~= before + (head
                    + all.take(i + 1)));
            }
            i += 1;
        }
        assert(all.take(n as int) =~= all);
    }

    /// Takes a key press: a character goes to the end of the line being
    /// typed, backspace takes the last one away, enter hands the line over
    /// and empties it, escape and interrupt end the frontend.
    pub fn on_key(&mut self, key: Key) -> (r: KeyOutcome)
        ensures
            final(self)@ == old(self)@.after_key(key),
            r@ == old(self)@.key_outcome(key),
    {
        match key {
            Key::Interrupt => KeyOutcome::Quit,
            Key::Escape => KeyOutcome::Quit,
            Key::Char(c) => {
                push_char(&mut self.input, c);
                KeyOutcome::Continue
            },
            Key::Backspace => {
                pop_char(&mut self.input);
                KeyOutcome::Continue
            },
            Key::Enter => {
                let line = self.input.clone();
                self.input = String::new();
                if line.as_str().unicode_len() > 0 {
                    KeyOutcome::Submit(line)
                } else {
                    KeyOutcome::Continue
                }
            },
            Key::Other => KeyOutcome::Continue,
        }
    }

    /// The command that a first word names, the word in lower case.
    pub fn command_for(word: &str) -> (r: TuiCommand)
        ensures
            r == command_named(word@),
    {
        if same_text(word, "/quit") || same_text(word, "/exit") {
            TuiCommand::Quit
        } else if same_text(word, "/clear") {
            TuiCommand::Clear
        } else if same_text(word, "/status") {
            TuiCommand::Status
        } else if same_text(word, "/jobs") {
            TuiCommand::Jobs
        } else if same_text(word, "/workspace") {
            TuiCommand::Workspace
        } else if same_text(word, "/memory") {
            TuiCommand::Memory
        } else if same_text(word, "/forget") {
            TuiCommand::Forget
        } else if same_text(word, "/help") {
            TuiCommand::Help
        } else {
            TuiCommand::Chat
        }
    }

    /// What an entered line asks for.
    pub fn parse_command(input: &str) -> (r: TuiCommand)
        ensures
            r == command_of(input@),
    {
        if !starts_with(input, "/") {
            return TuiCommand::Chat;
        }
        let parts = split_words(input);
        if parts.len() == 0 {
            return TuiCommand::Chat;
        }
        assert(parts.deep_view()[0] == parts@[0]@);
        let word = to_lower(parts[0].as_str());
        Self::command_for(word.as_str())
    }

    /// Empties the screen on `/clear` and says so.
    pub fn show_cleared(&mut self)
        ensures
            final(self)@ == (TuiView {
                messages: seq![status_line("🧹"@, "Chat history cleared"@)],
                ..old(self)@
            }),
    {
        self.messages = Vec::new();
        self.add_status("🧹", "Chat history cleared");
        assert(Seq::<(Seq<char>, bool)>::empty() + seq![
            status_line("🧹"@, "Chat history cleared"@),
        ] =~= seq![status_line("🧹"@, "Chat history cleared"@)]);
    }

    /// Shows the state of the system on `/status`.
    pub fn show_status(&mut self, config: &OllamaConfig, jobs: usize, files: usize)
        ensures
            final(self)@ == old(self)@.showing(
                seq![
                    status_line(
                        "🦀"@,
                        "Model: "@ + config.model@ + " | Host: "@ + config.host@ + " | Jobs: "@
                            + decimal(jobs as nat) + " | Files: "@ + decimal(files as nat),
                    ),
                ],
            ),
    {
        let mut t = "Model: ".to_owned();
        t.append(config.model.as_str());
        t.append(" | Host: ");
        t.append(config.host.as_str());
        t.append(" | Jobs: ");
        t.append(decimal_text(jobs as u64).as_str());
        t.append(" | Files: ");
        t.append(decimal_text(files as u64).as_str());
        self.add_status("🦀", t.as_str());
    }

    /// Shows the scheduled jobs on `/jobs`.
    pub fn show_jobs(&mut self, jobs: &Vec<CronJob>)
        ensures
            final(self)@ == old(self)@.showing(jobs_shown(jobs.deep_view())),
    {
        let n = jobs.len();
        if n == 0 {
            self.add_status("ℹ️", "No scheduled jobs");
            return ;
        }
        let ghost all = jobs_shown(jobs.deep_view());
        let mut i: usize = 0;
        assert(old(self)@.messages + all.take(0) =~= old(self)@.messages);
        while i < n
            invariant
                n == jobs.len(),
                n > 0,
                i <= n,
                all == jobs_shown(jobs.deep_view()),
                self@ == old(self)@.showing(all.take(i as int)),
            decreases n - i,
        {
            let mut t = "#".to_owned();
            t.append(signed_decimal_text(jobs[i].id).as_str());
            t.append(": ");
            t.append(jobs[i].task.as_str());
            t.append(" (");
            t.append(jobs[i].schedule.as_str());
            t.append(")");
            self.add_status("🕐", t.as_str());
            proof {
                assert(jobs.deep_view()[i as int] == jobs@[i as int]@);
                assert(old(self)@.messages + all.take(i as int) + seq![all[i as int]] =~= old(
                    self,
                )@.messages + all.take(i + 1));
            }
            i += 1;
        }
        assert(all.take(n as int) =~= all);
    }

    /// Shows the files of the workspace on `/workspace`, each by its name
    /// and its size in kilobytes, the size written out.
    pub fn show_files(&mut self, files: &Vec<(String, String)>)
        ensures
            final(self)@ == old(self)@.showing(files_shown(files.deep_view())),
    {
        let n = files.len();
        if n == 0 {
            self.add_status("ℹ️", "Workspace is empty");
            return ;
        }
        let ghost all = files_shown(files.deep_view());
        let mut i: usize = 0;
        assert(old(self)@.messages + all.take(0) =~= old(self)@.messages);
        while i < n
            invariant
                n == files.len(),
                n > 0,
                i <= n,
                all == files_shown(files.deep_view()),
                self@ == old(self)@.showing(all.take(i as int)),
            decreases n - i,
        {
            let mut t = files[i].0.clone();
            t.append(" (");
            t.append(files[i].1.as_str());
            t.append(" KB)");
            self.add_status("📁", t.as_str());
            proof {
                assert(files.deep_view()[i as int] == files@[i as int].deep_view());
                assert(old(self)@.messages + all.take(i as int) + seq![all[i as int]] =~= old(
                    self,
                )@.messages + all.take(i + 1));
            }
            i += 1;
        }
        assert(all.take(n as int) =~= all);
    }

    /// Shows the first lines of the remembered facts on `/memory`.
    pub fn show_memory(&mut self, content: &str)
        ensures
            final(self)@ == old(self)@.showing(memory_shown(content@)),
    {
        if content.unicode_len() == 0 {
            self.add_status("🧠", "No memories saved yet");
            return ;
        }
        let mut all = split_lines(content);
        if all.len() > MEMORY_PREVIEW_LINES {
            let ghost whole = all.deep_view();
            all.truncate(MEMORY_PREVIEW_LINES);
            assert(all.deep_view() =~= whole.take(MEMORY_PREVIEW_LINES as int));
        }
        self.add_lines(&all);
    }

    /// Shows what came of `/forget`.
    pub fn show_forgotten(&mut self, cleared: bool)
        ensures
            final(self)@ == old(self)@.showing(
                seq![
                    if cleared {
                        status_line("🧹"@, "All memories forgotten"@)
                    } else {
                        status_line("❌"@, "Failed to clear memory"@)
                    },
                ],
            ),
    {
        if cleared {
            self.add_status("🧹", "All memories forgotten");
        } else {
            self.add_status("❌", "Failed to clear memory");
        }
    }

    /// Shows the commands on `/help`.
    pub fn show_help(&mut self)
        ensures
            final(self)@ == old(self)@.showing(plain_lines(lines(TUI_HELP@))),
    {
        let all = split_lines(TUI_HELP);
        self.add_lines(&all);
    }

    /// Begins a turn of the conversation: the user's text is shown, and a
    /// reply is being awaited.
    pub fn begin_message(&mut self, user_text: &str)
        ensures
            final(self)@ == (TuiView {
                processing: true,
                ..old(self)@.showing(seq![message_line("user"@, user_text@)])
            }),
    {
        self.processing = true;
        self.add_message("user", user_text);
    }

    /// Ends a turn of the conversation: the reply is shown as the reader
    /// sees it, unless nothing is left of it, and no reply is awaited any
    /// more. The result is what goes to the chat about the turn.
    pub fn finish_message(&mut self, user_text: &str, shown: &str) -> (r: String)
        ensures
            final(self)@ == (TuiView {
                processing: false,
                ..if shown@.len() > 0 {
                    old(self)@.showing(seq![message_line("assistant"@, shown@)])
                } else {
                    old(self)@
                }
            }),
            r@ == relay_text(user_text@, shown@),
    {
        if shown.unicode_len() > 0 {
            self.add_message("assistant", shown);
        }
        self.processing = false;
        let mut r = "💻 TUI: ".to_owned();
        r.append(user_text);
        r.append("\n\n");
        r.append(shown);
        r
    }

    /// The notice of an error in a `cron` block of a reply.
    pub fn show_cron_error(&mut self, error: &str)
        ensures
            final(self)@ == old(self)@.showing(
                seq![status_line("⚠️"@, "Cron error: "@ + error@)],
            ),
    {
        let mut t = "Cron error: ".to_owned();
        t.append(error);
        self.add_status("⚠️", t.as_str());
    }

    /// The notice that a job found in a reply was scheduled under `job_id`.
    pub fn show_scheduled(&mut self, job_id: i64, job: &CronJobData)
        ensures
            final(self)@ == old(self)@.showing(
                seq![
                    status_line(
                        "✅"@,
                        "Scheduled job #"@ + signed_decimal(job_id as int) + ": "@ + job.task@
                            + " ("@ + job.schedule@ + ")"@,
                    ),
                ],
            ),
    {
        let mut t = "Scheduled job #".to_owned();
        t.append(signed_decimal_text(job_id).as_str());
        t.append(": ");
        t.append(job.task.as_str());
        t.append(" (");
        t.append(job.schedule.as_str());
        t.append(")");
        self.add_status("✅", t.as_str());
    }

    /// The notice that a job found in a reply could not be scheduled.
    pub fn show_schedule_error(&mut self, error: &str)
        ensures
            final(self)@ == old(self)@.showing(
                seq![status_line("❌"@, "Error scheduling: "@ + error@)],
            ),
    {
        let mut t = "Error scheduling: ".to_owned();
        t.append(error);
        self.add_status("❌", t.as_str());
    }

    /// The notice that a file was saved under `name`.
    pub fn show_saved(&mut self, name: &str)
        ensures
            final(self)@ == old(self)@.showing(
                seq![status_line("💾"@, "Saved "@ + name@ + " to workspace"@)],
            ),
    {
        let mut t = "Saved ".to_owned();
        t.append(name);
        t.append(" to workspace");
        self.add_status("💾", t.as_str());
    }

    /// The notice that a file could not be saved.
    pub fn show_save_error(&mut self, error: &str)
        ensures
            final(self)@ == old(self)@.showing(
                seq![status_line("❌"@, "Error saving file: "@ + error@)],
            ),
    {
        let mut t = "Error saving file: ".to_owned();
        t.append(error);
        self.add_status("❌", t.as_str());
    }

    /// The notice that a fact was remembered.
    pub fn show_remembered(&mut self, fact: &str)
        ensures
            final(self)@ == old(self)@.showing(
                seq![status_line("🧠"@, "Remembered: "@ + fact@)],
            ),
    {
        let mut t = "Remembered: ".to_owned();
        t.append(fact);
        self.add_status("🧠", t.as_str());
    }
}

} // verus!
