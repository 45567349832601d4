//! The settings of the program and their defaults.
use crate::text::same_text;
use vstd::prelude::*;

verus! {

/// Settings of the chat-bot frontend.
#[derive(Debug, Clone)]
pub struct TelegramConfig {
    pub token: String,
    pub allowed_users: Vec<i64>,
}

impl Default for TelegramConfig {
    fn default() -> (r: Self)
        ensures
            r.token@ == Seq::<char>::empty(),
            r.allowed_users@ == Seq::<i64>::empty(),
    {
        TelegramConfig { token: String::new(), allowed_users: Vec::new() }
    }
}

/// Settings of the chat-completion backend.
#[derive(Debug, Clone)]
pub struct OllamaConfig {
    pub host: String,
    pub model: String,
    pub keep_alive: i64,
    pub context_length: u32,
}

pub fn default_ollama_host() -> (r: String)
    ensures
        r@ == "http://localhost:11434"@,
{
    "http://localhost:11434".to_owned()
}

pub fn default_model() -> (r: String)
    ensures
        r@ == "tinyllama"@,
{
    "tinyllama".to_owned()
}

pub fn default_keep_alive() -> (r: i64)
    ensures
        r == -1,
{
    -1
}

pub fn default_context_length() -> (r: u32)
    ensures
        r == 4096,
{
    4096
}

impl Default for OllamaConfig {
    fn default() -> (r: Self)
        ensures
            r.host@ == "http://localhost:11434"@,
            r.model@ == "tinyllama"@,
            r.keep_alive == -1,
            r.context_length == 4096,
    {
        OllamaConfig {
            host: default_ollama_host(),
            model: default_model(),
            keep_alive: default_keep_alive(),
            context_length: default_context_length(),
        }
    }
}

/// Where generated files are kept.
#[derive(Debug, Clone)]
pub struct WorkspaceConfig {
    pub path: String,
}

pub fn default_workspace_path() -> (r: String)
    ensures
        r@ == "./workspace"@,
{
    "./workspace".to_owned()
}

impl Default for WorkspaceConfig {
    fn default() -> (r: Self)
        ensures
            r.path@ == "./workspace"@,
    {
        WorkspaceConfig { path: default_workspace_path() }
    }
}

/// Whether stored jobs are armed at startup.
#[derive(Debug, Clone)]
pub struct SchedulerConfig {
    pub enabled: bool,
}

pub fn default_scheduler_enabled() -> (r: bool)
    ensures
        r,
{
    true
}

impl Default for SchedulerConfig {
    fn default() -> (r: Self)
        ensures
            r.enabled,
    {
        SchedulerConfig { enabled: default_scheduler_enabled() }
    }
}

/// Where the conversation store lives and how much of it is replayed.
#[derive(Debug, Clone)]
pub struct MemoryConfig {
    pub database: String,
    pub max_history: usize,
}

pub fn default_database_path() -> (r: String)
    ensures
        r@ == "./rustyclaw.db"@,
{
    "./rustyclaw.db".to_owned()
}

pub fn default_max_history() -> (r: usize)
    ensures
        r == 50,
{
    50
}

impl Default for MemoryConfig {
    fn default() -> (r: Self)
        ensures
            r.database@ == "./rustyclaw.db"@,
            r.max_history == 50,
    {
        MemoryConfig { database: default_database_path(), max_history: default_max_history() }
    }
}

/// Everything that is configured.
#[derive(Debug, Clone)]
pub struct Config {
    pub telegram: TelegramConfig,
    pub ollama: OllamaConfig,
    pub workspace: WorkspaceConfig,
    pub scheduler: SchedulerConfig,
    pub memory: MemoryConfig,
    pub system_prompt: String,
}

/// Where the configuration is read from unless another place is named.
pub const DEFAULT_CONFIG_PATH: &'static str = "config.yaml";

/// Where the system prompt is read from where the configuration holds none.
pub const SOUL_PATH: &'static str = "soul.md";

/// The token that the example configuration holds in place of a real one.
pub const PLACEHOLDER_TOKEN: &'static str = "YOUR_BOT_TOKEN_HERE";

impl Default for Config {
    fn default() -> (r: Self)
        ensures
            r.telegram.token@ == Seq::<char>::empty(),
            r.telegram.allowed_users@ == Seq::<i64>::empty(),
            r.ollama.host@ == "http://localhost:11434"@,
            r.ollama.model@ == "tinyllama"@,
            r.ollama.keep_alive == -1,
            r.ollama.context_length == 4096,
            r.workspace.path@ == "./workspace"@,
            r.scheduler.enabled,
            r.memory.database@ == "./rustyclaw.db"@,
            r.memory.max_history == 50,
            r.system_prompt@ == Seq::<char>::empty(),
    {
        Config {
            telegram: TelegramConfig::default(),
            ollama: OllamaConfig::default(),
            workspace: WorkspaceConfig::default(),
            scheduler: SchedulerConfig::default(),
            memory: MemoryConfig::default(),
            system_prompt: String::new(),
        }
    }
}

/// The system prompt of a configuration that holds `configured`, where the
/// fallback file holds `soul`, if there is one: the configured prompt unless
/// it is empty.
pub open spec fn resolved_prompt(configured: Seq<char>, soul: Option<Seq<char>>) -> Seq<char> {
    match soul {
        Some(text) => if configured.len() == 0 {
            text
        } else {
            configured
        },
        None => configured,
    }
}

impl Config {
    /// What is said of a configuration file that is not there.
    pub fn missing_file_message(path: &str) -> (r: String)
        ensures
            r@ == "Config file not found: "@ + path@
                + "\nCopy config.example.yaml to config.yaml and edit it."@,
    {
        let mut r = "Config file not found: ".to_owned();
        r.append(path);
        r.append("\nCopy config.example.yaml to config.yaml and edit it.");
        r
    }

    /// What is said of a configuration file that cannot be read.
    pub fn unreadable_file_message(path: &str) -> (r: String)
        ensures
            r@ == "Failed to read config file: "@ + path@,
    {
        let mut r = "Failed to read config file: ".to_owned();
        r.append(path);
        r
    }

    /// Whether the system prompt is to come from the fallback file.
    pub fn needs_soul(&self) -> (r: bool)
        ensures
            r == (self.system_prompt@.len() == 0),
    {
        self.system_prompt.as_str().unicode_len() == 0
    }

    /// Gives a configuration without a system prompt the text of the fallback
    /// file, where there is such a file.
    pub fn resolve_system_prompt(&mut self, soul: Option<String>)
        ensures
            final(self).system_prompt@ == resolved_prompt(
                old(self).system_prompt@,
                soul.deep_view(),
            ),
            final(self).telegram == old(self).telegram,
            final(self).ollama == old(self).ollama,
            final(self).workspace == old(self).workspace,
            final(self).scheduler == old(self).scheduler,
            final(self).memory == old(self).memory,
    {
        if self.needs_soul() {
            match soul {
                Some(text) => {
                    self.system_prompt = text;
                },
                None => {},
            }
        }
    }

    /// Whether the chat bot can be started: it has a token, and not the one
    /// of the example configuration.
    pub fn telegram_ready(&self) -> (r: bool)
        ensures
            r == (self.telegram.token@.len() > 0 && self.telegram.token@ != PLACEHOLDER_TOKEN@),
    {
        self.telegram.token.as_str().unicode_len() > 0 && !same_text(
            self.telegram.token.as_str(),
            PLACEHOLDER_TOKEN,
        )
    }
}

/// Which frontends run.
#[derive(Debug, Clone, Copy, PartialEq, Eq, Structural)]
pub enum Mode {
    Telegram,
    Tui,
    Both,
}

/// The version of the program.
pub const VERSION: &'static str = "0.1.0";

impl Mode {
    /// Whether the chat bot runs.
    pub fn wants_telegram(self) -> (r: bool)
        ensures
            r == (self != Mode::Tui),
    {
        match self {
            Mode::Tui => false,
            _ => true,
        }
    }

    /// Whether the terminal frontend runs, in which case the log goes to a
    /// file.
    pub fn wants_tui(self) -> (r: bool)
        ensures
            r == (self != Mode::Telegram),
    {
        match self {
            Mode::Telegram => false,
            _ => true,
        }
    }

    /// The name of the mode.
    pub open spec fn name_of(self) -> Seq<char> {
        match self {
            Mode::Telegram => "Telegram"@,
            Mode::Tui => "Tui"@,
            Mode::Both => "Both"@,
        }
    }

    /// The name of the mode.
    pub fn name(self) -> (r: &'static str)
        ensures
            r@ == self.name_of(),
    {
        match self {
            Mode::Telegram => "Telegram",
            Mode::Tui => "Tui",
            Mode::Both => "Both",
        }
    }

    /// The first line that the program prints.
    pub fn banner(self) -> (r: String)
        ensures
            r@ == "🦀 RustyClaw v"@ + VERSION@ + " | Mode: "@ + self.name_of(),
    {
        let mut r = "🦀 RustyClaw v".to_owned();
        r.append(VERSION);
        r.append(" | Mode: ");
        r.append(self.name());
        r
    }
}

} // verus!
