//! The conversational agent: what it remembers, the system instructions that
//! follow from it, and what it sends to the backend. Reading the action
//! blocks of a reply has a module of its own.
pub mod blocks;

pub use self::blocks::{CronJobData, ResponseActions, SaveBlock};
use crate::config::OllamaConfig;
use crate::memory::{Message, MessageView};
use crate::text::lines::{count_lines, line_count};
use crate::text::space::{blank, is_blank, is_space, lemma_trimmed_blank, trim, trimmed};
use crate::text::{contains, has_substring, occurs_at};
use vstd::prelude::*;

verus! {

/// The state that the conversational agent keeps between calls: the backend
/// settings, the prompt it was started with, the facts it remembers, and the
/// system instructions built from the two.
pub struct Agent {
    config: OllamaConfig,
    base_prompt: String,
    cache: Snapshot,
}

/// The remembered facts together with the system instructions built from
/// them. The two are only ever replaced as one value.
struct Snapshot {
    memory_content: String,
    system_prompt: String,
}

/// What an `Agent` holds: its settings, the prompt it was started with, the
/// facts it remembers and its system instructions.
pub ghost struct AgentState {
    pub settings: OllamaConfig,
    pub base_prompt: Seq<char>,
    pub memory: Seq<char>,
    pub prompt: Seq<char>,
}

/// What stands between the base prompt and the remembered facts.
pub const MEMORY_HEADER: &'static str =
    "\n\n## Personal Memory\nThese are important facts to remember about the user:\n";

/// The number of lines above which the remembered facts count as large.
pub const MAX_MEMORY_LINES: usize = 100;

/// The facts that a fact log holds: a log of white space only holds none.
pub open spec fn loaded_memory(log: Seq<char>) -> Seq<char> {
    if trimmed(log).len() == 0 {
        Seq::empty()
    } else {
        log
    }
}

/// The system instructions: the base prompt alone where no fact is
/// remembered, else the base prompt, the header and the facts.
pub open spec fn full_prompt(base: Seq<char>, memory: Seq<char>) -> Seq<char> {
    if memory.len() == 0 {
        base
    } else {
        base + MEMORY_HEADER@ + memory
    }
}

/// What is appended to a fact log for `fact`: a line of its own, after an
/// empty line where the log already holds something.
pub open spec fn fact_entry(fact: Seq<char>, log_has_content: bool) -> Seq<char> {
    let line = "- "@ + trimmed(fact) + "\n"@;
    if log_has_content {
        "\n"@ + line
    } else {
        line
    }
}

impl AgentState {
    /// The system instructions are the ones built from the base prompt and
    /// the remembered facts.
    pub open spec fn wf(self) -> bool {
        self.prompt == full_prompt(self.base_prompt, self.memory)
    }

    /// Whether `fact` is already remembered: its trimmed text occurs
    /// somewhere in the facts.
    pub open spec fn remembers(self, fact: Seq<char>) -> bool {
        has_substring(self.memory, trimmed(fact))
    }

    /// The state after the facts were read again from `log`.
    pub open spec fn reloaded(self, log: Seq<char>) -> AgentState {
        AgentState {
            memory: loaded_memory(log),
            prompt: full_prompt(self.base_prompt, loaded_memory(log)),
            ..self
        }
    }

    /// The state after asking to remember `fact` while the fact log holds
    /// `log`: unchanged where the fact is remembered already, else as read
    /// again from the log with the fact's entry appended.
    pub open spec fn saved(self, fact: Seq<char>, log: Seq<char>) -> AgentState {
        if self.remembers(fact) {
            self
        } else {
            self.reloaded(log + fact_entry(fact, log.len() > 0))
        }
    }

    /// The state after forgetting every fact.
    pub open spec fn cleared(self) -> AgentState {
        AgentState { memory: Seq::empty(), prompt: self.base_prompt, ..self }
    }
}

impl View for Agent {
    type V = AgentState;

    closed spec fn view(&self) -> AgentState {
        AgentState {
            settings: self.config,
            base_prompt: self.base_prompt@,
            memory: self.cache.memory_content@,
            prompt: self.cache.system_prompt@,
        }
    }
}

impl Clone for Agent {
    /// A second agent in the same state, on which a change can be tried
    /// before it is made.
    fn clone(&self) -> (r: Agent)
        ensures
            r@ == self@,
    {
        proof {
            use_type_invariant(self);
        }
        Agent {
            config: OllamaConfig {
                host: self.config.host.clone(),
                model: self.config.model.clone(),
                keep_alive: self.config.keep_alive,
                context_length: self.config.context_length,
            },
            base_prompt: self.base_prompt.clone(),
            cache: Snapshot {
                memory_content: self.cache.memory_content.clone(),
                system_prompt: self.cache.system_prompt.clone(),
            },
        }
    }
}

impl Agent {
    #[verifier::type_invariant]
    spec fn inv(&self) -> bool {
        self@.wf()
    }

    /// The facts that a fact log holds.
    pub fn load_memory(log: &str) -> (r: String)
        ensures
            r@ == loaded_memory(log@),
    {
        if blank(log) {
            String::new()
        } else {
            log.to_owned()
        }
    }

    /// The system instructions for a base prompt and remembered facts.
    pub fn build_full_prompt(base: &str, memory: &str) -> (r: String)
        ensures
            r@ == full_prompt(base@, memory@),
    {
        let mut r = base.to_owned();
        if memory.unicode_len() > 0 {
            r.append(MEMORY_HEADER);
            r.append(memory);
        }
        r
    }

    /// An agent with the given settings and base prompt that remembers what
    /// the fact log `log` holds.
    pub fn new(config: OllamaConfig, system_prompt: String, log: &str) -> (r: Agent)
        ensures
            r@.wf(),
            r@.base_prompt == system_prompt@,
            r@.memory == loaded_memory(log@),
            r@.settings == config,
    {
        let memory_content = Self::load_memory(log);
        let full = Self::build_full_prompt(system_prompt.as_str(), memory_content.as_str());
        Agent {
            config,
            base_prompt: system_prompt,
            cache: Snapshot { memory_content, system_prompt: full },
        }
    }

    /// The backend settings.
    pub fn config(&self) -> (r: &OllamaConfig)
        ensures
            *r == self@.settings,
    {
        &self.config
    }

    /// The prompt the agent was started with.
    pub fn base_prompt(&self) -> (r: String)
        ensures
            r@ == self@.base_prompt,
    {
        self.base_prompt.clone()
    }

    /// The remembered facts.
    pub fn memory_content(&self) -> (r: String)
        ensures
            r@ == self@.memory,
    {
        self.cache.memory_content.clone()
    }

    /// The system instructions as they stand.
    pub fn system_prompt(&self) -> (r: String)
        ensures
            r@ == self@.prompt,
            self@.wf(),
    {
        proof {
            use_type_invariant(self);
        }
        self.cache.system_prompt.clone()
    }

    /// Whether the remembered facts run to more than `MAX_MEMORY_LINES`
    /// lines, and how many lines they have.
    pub fn check_memory_size(&self) -> (r: (bool, usize))
        ensures
            r.1 == line_count(self@.memory),
            r.0 == (line_count(self@.memory) > MAX_MEMORY_LINES),
    {
        let lines = count_lines(self.cache.memory_content.as_str());
        (lines > MAX_MEMORY_LINES, lines)
    }

    /// The text to append to the fact log for `fact`, or `None` where the
    /// fact is remembered already. `log_has_content` says whether the log
    /// holds anything yet.
    pub fn pending_entry(&self, fact: &str, log_has_content: bool) -> (r: Option<String>)
        ensures
            self@.remembers(fact@) ==> r is None,
            !self@.remembers(fact@) ==> r is Some && r->0@ == fact_entry(fact@, log_has_content),
    {
        let t = trim(fact);
        if contains(self.cache.memory_content.as_str(), t) {
            return None;
        }
        let mut line = String::new();
        if log_has_content {
            line.append("\n");
        }
        line.append("- ");
        line.append(t);
        line.append("\n");
        assert(line@ =~= fact_entry(fact@, log_has_content));
        Some(line)
    }

    /// Reads the facts again from what the fact log now holds and rebuilds
    /// the system instructions.
    pub fn reload(&mut self, log: &str)
        ensures
            final(self)@ == old(self)@.reloaded(log@),
    {
        let memory = Self::load_memory(log);
        let prompt = Self::build_full_prompt(self.base_prompt.as_str(), memory.as_str());
        self.cache = Snapshot { memory_content: memory, system_prompt: prompt };
    }

    /// Remembers `fact` unless it is remembered already. `log` is what the
    /// fact log holds; the result is the text to append to it, `None` where
    /// nothing changes.
    pub fn save_to_memory(&mut self, fact: &str, log: &str) -> (r: Option<String>)
        ensures
            final(self)@ == old(self)@.saved(fact@, log@),
            r is None <==> old(self)@.remembers(fact@),
            r matches Some(entry) ==> entry@ == fact_entry(fact@, log@.len() > 0),
    {
        match self.pending_entry(fact, log.unicode_len() > 0) {
            None => None,
            Some(entry) => {
                let mut grown = log.to_owned();
                grown.append(entry.as_str());
                self.reload(grown.as_str());
                Some(entry)
            },
        }
    }

    /// Forgets every fact: the system instructions are the base prompt again.
    pub fn clear_memory(&mut self)
        ensures
            final(self)@ == old(self)@.cleared(),
            final(self)@.prompt == old(self)@.base_prompt,
            final(self)@.memory.len() == 0,
    {
        let prompt = self.base_prompt.clone();
        self.cache = Snapshot { memory_content: String::new(), system_prompt: prompt };
    }
}

/// The address of the backend's chat endpoint on `host`.
pub open spec fn chat_url_of(host: Seq<char>) -> Seq<char> {
    host + "/api/chat"@
}

/// The messages that go to the backend: the system instructions first, then
/// the conversation.
pub open spec fn request_messages(prompt: Seq<char>, messages: Seq<MessageView>) -> Seq<
    MessageView,
> {
    seq![MessageView { role: "system"@, content: prompt }] + messages
}

/// What the user is told when the backend fails for the reason `error`.
pub open spec fn apology(error: Seq<char>) -> Seq<char> {
    "Sorry, I had trouble thinking about that. Error: "@ + error
}

/// The reply to show for what the backend returned: its text, or an apology
/// that carries its error.
pub open spec fn reply_of(outcome: Result<Seq<char>, Seq<char>>) -> Seq<char> {
    match outcome {
        Ok(text) => text,
        Err(error) => apology(error),
    }
}

impl Agent {
    /// The address that chat requests go to.
    pub fn chat_url(&self) -> (r: String)
        ensures
            r@ == chat_url_of(self@.settings.host@),
    {
        let mut r = self.config.host.clone();
        r.append("/api/chat");
        r
    }

    /// The messages of a chat request for the conversation `messages`.
    pub fn chat_messages(&self, messages: &Vec<Message>) -> (r: Vec<Message>)
        ensures
            r.deep_view() == request_messages(self@.prompt, messages.deep_view()),
    {
        let mut out: Vec<Message> = Vec::new();
        out.push(
            Message { role: "system".to_owned(), content: self.cache.system_prompt.clone() },
        );
        let n = messages.len();
        let mut i: usize = 0;
        assert(out.deep_view() =~= request_messages(self@.prompt, messages.deep_view().take(0)));
        while i < n
            invariant
                n == messages.len(),
                i <= n,
                out.deep_view() == request_messages(
                    self@.prompt,
                    messages.deep_view().take(i as int),
                ),
            decreases n - i,
        {
            let m = Message {
                role: messages[i].role.clone(),
                content: messages[i].content.clone(),
            };
            let ghost before = out.deep_view();
            out.push(m);
            proof {
                let d = messages.deep_view();
                assert(d[i as int] == messages@[i as int]@);
                assert(out.deep_view() =~= before.push(m@));
                assert(d.take(i + 1) =~= d.take(i as int).push(d[i as int]));
                assert(out.deep_view() =~= request_messages(self@.prompt, d.take(i + 1)));
            }
            i += 1;
        }
        assert(messages.deep_view().take(n as int) =~= messages.deep_view());
        out
    }

    /// The conversation that warms the backend up: one greeting from the
    /// user.
    pub fn warm_up_messages() -> (r: Vec<Message>)
        ensures
            r.deep_view() == seq![MessageView { role: "user"@, content: "hi"@ }],
    {
        let mut out: Vec<Message> = Vec::new();
        out.push(Message { role: "user".to_owned(), content: "hi".to_owned() });
        assert(out.deep_view() =~= seq![MessageView { role: "user"@, content: "hi"@ }]);
        out
    }

    /// The error for a response of the backend that reports failure, from its
    /// status line and its body.
    pub fn backend_error(status: &str, body: &str) -> (r: String)
        ensures
            r@ == "Ollama returned error "@ + status@ + ": "@ + body@,
    {
        let mut r = "Ollama returned error ".to_owned();
        r.append(status);
        r.append(": ");
        r.append(body);
        r
    }

    /// The reply to show for what a chat request came to: a failure of the
    /// backend becomes an apology, never an error of the caller's.
    pub fn chat_reply(outcome: Result<String, String>) -> (r: String)
        ensures
            r@ == reply_of(
                match outcome {
                    Ok(t) => Ok(t@),
                    Err(e) => Err(e@),
                },
            ),
    {
        match outcome {
            Ok(text) => text,
            Err(error) => {
                let mut r = "Sorry, I had trouble thinking about that. Error: ".to_owned();
                r.append(error.as_str());
                r
            },
        }
    }
}

/// Once a fact is saved it is remembered: saving it again, with or without
/// white space around it, changes nothing, whatever the log holds by then.
pub proof fn law_saved_fact_is_remembered(
    a: AgentState,
    fact: Seq<char>,
    log: Seq<char>,
    again: Seq<char>,
    later_log: Seq<char>,
)
    requires
        trimmed(again) == trimmed(fact),
    ensures
        a.saved(fact, log).remembers(again),
        a.saved(fact, log).saved(again, later_log) == a.saved(fact, log),
{
    if !a.remembers(fact) {
        reveal_strlit("- ");
        reveal_strlit("\n");
        let t = trimmed(fact);
        let entry = fact_entry(fact, log.len() > 0);
        let grown = log + entry;
        let lead: int = if log.len() > 0 {
            1
        } else {
            0
        };
        let dash = log.len() + lead;
        assert(entry.len() == lead + 2 + t.len() + 1);
        assert(grown[dash] == '-');
        assert(!is_space('-'));
        assert(!is_blank(grown));
        lemma_trimmed_blank(grown);
        assert(loaded_memory(grown) == grown);
        assert(grown.subrange(dash + 2, dash + 2 + t.len()) =~= t);
        assert(occurs_at(grown, t, dash + 2));
    }
}

/// Forgetting restores the base prompt and leaves no fact, whatever was
/// saved before; and every change of state keeps the system instructions
/// built from the base prompt and the facts.
pub proof fn law_clear_restores_the_base_prompt(a: AgentState, fact: Seq<char>, log: Seq<char>)
    ensures
        a.saved(fact, log).base_prompt == a.base_prompt,
        a.saved(fact, log).cleared().prompt == a.base_prompt,
        a.saved(fact, log).cleared().memory.len() == 0,
        a.cleared().wf(),
        a.reloaded(log).wf(),
        a.wf() ==> a.saved(fact, log).wf(),
{
}

} // verus!
