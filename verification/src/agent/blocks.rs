//! The action blocks of a reply: scheduling requests, file-save requests,
//! facts to remember and code, and the reply without them.
use crate::agent::Agent;
use crate::json::{decode_members, json_members};
use crate::pattern::{captures_all, regex_captures, regex_replaced, replace_all};
use crate::text::space::{split_words, trim, trimmed, words};
use crate::text::{has_substring, join, joined, occurs_at, same_text};
use vstd::prelude::*;

verus! {

/// A fenced block tagged `cron`; group 1 is its body, which is all that
/// stands between the line of the opening fence and the closing fence,
/// whatever the number of its lines.
pub const CRON_BLOCK: &'static str = "(?s)```cron\\s*\\n(.*?)\\n\\s*```";

/// A fenced block tagged `save:` and a file name; group 1 is the file name,
/// group 2 the body.
pub const SAVE_BLOCK: &'static str = "(?s)```save:(\\S+)\\s*\\n(.*?)\\n\\s*```";

/// A fenced block tagged `memory`; group 1 is its body.
pub const MEMORY_BLOCK: &'static str = "(?s)```memory\\s*\\n(.*?)\\n\\s*```";

/// Any fenced block; group 1 is its tag, where it has one, group 2 its body.
pub const CODE_BLOCK: &'static str = "(?s)```(\\w+)?\\s*\\n(.*?)\\n\\s*```";

/// A request to run `message` on `schedule`, labelled `task`.
#[derive(Debug, Clone)]
pub struct CronJobData {
    pub schedule: String,
    pub task: String,
    pub message: String,
}

/// What a `CronJobData` holds.
pub ghost struct CronRequest {
    pub schedule: Seq<char>,
    pub task: Seq<char>,
    pub message: Seq<char>,
}

impl View for CronJobData {
    type V = CronRequest;

    open spec fn view(&self) -> CronRequest {
        CronRequest { schedule: self.schedule@, task: self.task@, message: self.message@ }
    }
}

impl DeepView for CronJobData {
    type V = CronRequest;

    open spec fn deep_view(&self) -> CronRequest {
        self@
    }
}

/// A request to write `content` to a file called `filename`.
#[derive(Debug, Clone)]
pub struct SaveBlock {
    pub filename: String,
    pub content: String,
}

/// What a `SaveBlock` holds.
pub ghost struct SaveRequest {
    pub filename: Seq<char>,
    pub content: Seq<char>,
}

impl View for SaveBlock {
    type V = SaveRequest;

    open spec fn view(&self) -> SaveRequest {
        SaveRequest { filename: self.filename@, content: self.content@ }
    }
}

impl DeepView for SaveBlock {
    type V = SaveRequest;

    open spec fn deep_view(&self) -> SaveRequest {
        self@
    }
}

/// The text of group `i` of one match; empty where the match has no such
/// group or the group took no part in it.
pub open spec fn group(c: Seq<Option<Seq<char>>>, i: int) -> Seq<char> {
    if 0 <= i < c.len() {
        match c[i] {
            Some(t) => t,
            None => Seq::empty(),
        }
    } else {
        Seq::empty()
    }
}

/// What the first member named `key` from index `i` on holds.
pub open spec fn member_from(
    members: Seq<(Seq<char>, Option<Seq<char>>)>,
    key: Seq<char>,
    i: int,
) -> Option<Option<Seq<char>>>
    decreases members.len() - i,
{
    if i < 0 || i >= members.len() {
        None
    } else if members[i].0 == key {
        Some(members[i].1)
    } else {
        member_from(members, key, i + 1)
    }
}

/// What the member named `key` holds: `None` where there is no such member,
/// `Some(None)` where it is not a string.
pub open spec fn member(members: Seq<(Seq<char>, Option<Seq<char>>)>, key: Seq<char>) -> Option<
    Option<Seq<char>>,
> {
    member_from(members, key, 0)
}

/// The text of the member named `key`; empty where it is absent or not a
/// string.
pub open spec fn member_text(members: Seq<(Seq<char>, Option<Seq<char>>)>, key: Seq<char>) -> Seq<
    char,
> {
    match member(members, key) {
        Some(Some(t)) => t,
        _ => Seq::empty(),
    }
}

/// `key` alone where `members` has no member of that name, else nothing.
pub open spec fn if_missing(members: Seq<(Seq<char>, Option<Seq<char>>)>, key: Seq<char>) -> Seq<
    Seq<char>,
> {
    if member(members, key) is None {
        seq![key]
    } else {
        Seq::empty()
    }
}

/// Those of `schedule`, `task`, `message` that `members` lacks, in that order.
pub open spec fn missing_keys(members: Seq<(Seq<char>, Option<Seq<char>>)>) -> Seq<Seq<char>> {
    if_missing(members, "schedule"@) + if_missing(members, "task"@) + if_missing(
        members,
        "message"@,
    )
}

/// What one `cron` block comes to, given what its body decodes to.
pub open spec fn cron_outcome(decoded: Option<Seq<(Seq<char>, Option<Seq<char>>)>>) -> Result<
    CronRequest,
    Seq<char>,
> {
    match decoded {
        None => Err("Invalid JSON in cron block"@),
        Some(members) => {
            let schedule = member_text(members, "schedule"@);
            if missing_keys(members).len() > 0 {
                Err("Missing required fields: "@ + joined(missing_keys(members), ", "@))
            } else if words(schedule).len() != 5 {
                Err(
                    "Invalid cron format '"@ + schedule
                        + "' - needs 5 fields (minute hour day month weekday)"@,
                )
            } else {
                Ok(
                    CronRequest {
                        schedule,
                        task: member_text(members, "task"@),
                        message: member_text(members, "message"@),
                    },
                )
            }
        },
    }
}

/// What one result of `cron_block_outcome` holds.
pub open spec fn outcome_view(r: Result<CronJobData, String>) -> Result<CronRequest, Seq<char>> {
    match r {
        Ok(job) => Ok(job@),
        Err(e) => Err(e@),
    }
}

/// What each match of `CRON_BLOCK` comes to: its body is trimmed, decoded as
/// JSON and judged by `cron_outcome`.
pub open spec fn cron_outcomes(caps: Seq<Seq<Option<Seq<char>>>>) -> Seq<
    Result<CronRequest, Seq<char>>,
> {
    Seq::new(caps.len(), |i: int| cron_outcome(json_members(trimmed(group(caps[i], 1)))))
}

/// The successes among `outcomes`, in order.
pub open spec fn accepted(outcomes: Seq<Result<CronRequest, Seq<char>>>) -> Seq<CronRequest>
    decreases outcomes.len(),
{
    if outcomes.len() == 0 {
        Seq::empty()
    } else {
        match outcomes.last() {
            Ok(job) => accepted(outcomes.drop_last()).push(job),
            Err(_) => accepted(outcomes.drop_last()),
        }
    }
}

/// The errors among `outcomes`, in order.
pub open spec fn rejected(outcomes: Seq<Result<CronRequest, Seq<char>>>) -> Seq<Seq<char>>
    decreases outcomes.len(),
{
    if outcomes.len() == 0 {
        Seq::empty()
    } else {
        match outcomes.last() {
            Ok(_) => rejected(outcomes.drop_last()),
            Err(e) => rejected(outcomes.drop_last()).push(e),
        }
    }
}

/// The file name and the body of each match of `SAVE_BLOCK`, as matched.
pub open spec fn save_requests(caps: Seq<Seq<Option<Seq<char>>>>) -> Seq<SaveRequest> {
    Seq::new(
        caps.len(),
        |i: int| SaveRequest { filename: group(caps[i], 1), content: group(caps[i], 2) },
    )
}

/// The trimmed bodies of the matches of `MEMORY_BLOCK`, without those that
/// trimming leaves empty.
pub open spec fn memory_facts(caps: Seq<Seq<Option<Seq<char>>>>) -> Seq<Seq<char>>
    decreases caps.len(),
{
    if caps.len() == 0 {
        Seq::empty()
    } else {
        let fact = trimmed(group(caps.last(), 1));
        if fact.len() == 0 {
            memory_facts(caps.drop_last())
        } else {
            memory_facts(caps.drop_last()).push(fact)
        }
    }
}

/// The tag of one match of `CODE_BLOCK`, `text` where it has none.
pub open spec fn code_language(c: Seq<Option<Seq<char>>>) -> Seq<char> {
    if 1 < c.len() && c[1] is Some {
        c[1]->0
    } else {
        "text"@
    }
}

/// The tag and the trimmed body of each match of `CODE_BLOCK`.
pub open spec fn code_blocks(caps: Seq<Seq<Option<Seq<char>>>>) -> Seq<(Seq<char>, Seq<char>)> {
    Seq::new(caps.len(), |i: int| (code_language(caps[i]), trimmed(group(caps[i], 2))))
}

/// `text` without the matches of `pattern`. A text without a match is left
/// as it is.
pub open spec fn without_blocks(pattern: Seq<char>, text: Seq<char>) -> Seq<char> {
    if regex_captures(pattern, text).len() == 0 {
        text
    } else {
        regex_replaced(pattern, text, Seq::empty())
    }
}

/// `text` without its `cron` blocks, then without its `save:` blocks, then
/// without its `memory` blocks, trimmed.
pub open spec fn cleaned(text: Seq<char>) -> Seq<char> {
    trimmed(
        without_blocks(
            MEMORY_BLOCK@,
            without_blocks(SAVE_BLOCK@, without_blocks(CRON_BLOCK@, text)),
        ),
    )
}

/// The text of group `i` of one match.
pub fn group_text(c: &Vec<Option<String>>, i: usize) -> (r: &str)
    ensures
        r@ == group(c.deep_view(), i as int),
{
    if i < c.len() {
        match &c[i] {
            Some(t) => t.as_str(),
            None => {
                proof {
                    reveal_strlit("");
                }
                ""
            },
        }
    } else {
        proof {
            reveal_strlit("");
        }
        ""
    }
}

/// What the member named `key` holds.
pub fn find_member<'a>(members: &'a Vec<(String, Option<String>)>, key: &str) -> (r: Option<
    &'a Option<String>,
>)
    ensures
        r.deep_view() == member(members.deep_view(), key@),
{
    let n = members.len();
    let mut i: usize = 0;
    while i < n
        invariant
            n == members.len(),
            i <= n,
            member(members.deep_view(), key@) == member_from(members.deep_view(), key@, i as int),
        decreases n - i,
    {
        if same_text(members[i].0.as_str(), key) {
            return Some(&members[i].1);
        }
        i += 1;
    }
    None
}

/// The text of the member named `key`; empty where it is absent or not a
/// string.
pub fn find_text<'a>(members: &'a Vec<(String, Option<String>)>, key: &str) -> (r: &'a str)
    ensures
        r@ == member_text(members.deep_view(), key@),
{
    proof {
        reveal_strlit("");
    }
    match find_member(members, key) {
        Some(Some(t)) => t.as_str(),
        _ => "",
    }
}

impl Agent {
    /// What one `cron` block comes to, given what its body decodes to:
    /// `None` for a body that is not JSON, else the members of the object.
    pub fn cron_block_outcome(decoded: Option<Vec<(String, Option<String>)>>) -> (r: Result<
        CronJobData,
        String,
    >)
        ensures
            outcome_view(r) == cron_outcome(decoded.deep_view()),
    {
        let members = match decoded {
            None => {
                return Err("Invalid JSON in cron block".to_owned());
            },
            Some(members) => members,
        };
        let ghost m = members.deep_view();
        let mut missing: Vec<String> = Vec::new();
        if find_member(&members, "schedule").is_none() {
            missing.push("schedule".to_owned());
        }
        assert(missing.deep_view() =~= if_missing(m, "schedule"@));
        if find_member(&members, "task").is_none() {
            missing.push("task".to_owned());
        }
        assert(missing.deep_view() =~= if_missing(m, "schedule"@) + if_missing(m, "task"@));
        if find_member(&members, "message").is_none() {
            missing.push("message".to_owned());
        }
        assert(missing.deep_view() =~= missing_keys(m));
        if missing.len() > 0 {
            let mut e = "Missing required fields: ".to_owned();
            let list = join(&missing, ", ");
            e.append(list.as_str());
            return Err(e);
        }
        let schedule = find_text(&members, "schedule");
        let parts = split_words(schedule);
        if parts.len() != 5 {
            let mut e = "Invalid cron format '".to_owned();
            e.append(schedule);
            e.append("' - needs 5 fields (minute hour day month weekday)");
            return Err(e);
        }
        Ok(
            CronJobData {
                schedule: schedule.to_owned(),
                task: find_text(&members, "task").to_owned(),
                message: find_text(&members, "message").to_owned(),
            },
        )
    }

    /// The requests and the errors that the matches of `CRON_BLOCK` come to,
    /// each list in the order of the matches.
    pub fn cron_blocks_from_captures(caps: &Vec<Vec<Option<String>>>) -> (r: (
        Vec<CronJobData>,
        Vec<String>,
    ))
        ensures
            r.0.deep_view() == accepted(cron_outcomes(caps.deep_view())),
            r.1.deep_view() == rejected(cron_outcomes(caps.deep_view())),
    {
        let mut jobs: Vec<CronJobData> = Vec::new();
        let mut errors: Vec<String> = Vec::new();
        let n = caps.len();
        let ghost all = cron_outcomes(caps.deep_view());
        let mut i: usize = 0;
        assert(jobs.deep_view() =~= accepted(all.take(0)));
        assert(errors.deep_view() =~= rejected(all.take(0)));
        while i < n
            invariant
                n == caps.len(),
                i <= n,
                all == cron_outcomes(caps.deep_view()),
                jobs.deep_view() == accepted(all.take(i as int)),
                errors.deep_view() == rejected(all.take(i as int)),
            decreases n - i,
        {
            let body = trim(group_text(&caps[i], 1));
            let outcome = Self::cron_block_outcome(decode_members(body));
            proof {
                assert(caps.deep_view()[i as int] == caps@[i as int].deep_view());
                assert(all.take(i + 1).drop_last() =~= all.take(i as int));
                assert(all.take(i + 1).last() == outcome_view(outcome));
            }
            let ghost jobs_before = jobs.deep_view();
            let ghost errors_before = errors.deep_view();
            match outcome {
                Ok(job) => {
                    jobs.push(job);
                    assert(jobs.deep_view() =~= jobs_before.push(job@));
                },
                Err(e) => {
                    errors.push(e);
                    assert(errors.deep_view() =~= errors_before.push(e@));
                },
            }
            i += 1;
        }
        assert(all.take(n as int) =~= all);
        (jobs, errors)
    }

    /// The scheduling requests in `text`: one for each `cron` block whose
    /// body is a JSON object with the members `schedule`, `task` and
    /// `message` and a schedule of five fields, and one error for every other
    /// `cron` block.
    pub fn parse_cron_blocks(text: &str) -> (r: (Vec<CronJobData>, Vec<String>))
        ensures
            r.0.deep_view() == accepted(cron_outcomes(regex_captures(CRON_BLOCK@, text@))),
            r.1.deep_view() == rejected(cron_outcomes(regex_captures(CRON_BLOCK@, text@))),
    {
        let caps = captures_all(CRON_BLOCK, text);
        Self::cron_blocks_from_captures(&caps)
    }

    /// The file name and body of each match of `SAVE_BLOCK`.
    pub fn save_blocks_from_captures(caps: &Vec<Vec<Option<String>>>) -> (r: Vec<SaveBlock>)
        ensures
            r.deep_view() == save_requests(caps.deep_view()),
    {
        let mut out: Vec<SaveBlock> = Vec::new();
        let n = caps.len();
        let mut i: usize = 0;
        while i < n
            invariant
                n == caps.len(),
                i <= n,
                out.deep_view() == save_requests(caps.deep_view()).take(i as int),
            decreases n - i,
        {
            let block = SaveBlock {
                filename: group_text(&caps[i], 1).to_owned(),
                content: group_text(&caps[i], 2).to_owned(),
            };
            let ghost before = out.deep_view();
            out.push(block);
            proof {
                assert(caps.deep_view()[i as int] == caps@[i as int].deep_view());
                assert(out.deep_view() =~= before.push(block@));
                assert(out.deep_view() =~= save_requests(caps.deep_view()).take(i + 1));
            }
            i += 1;
        }
        assert(save_requests(caps.deep_view()).take(n as int) =~= save_requests(caps.deep_view()));
        out
    }

    /// The file-save requests in `text`: the file name and the body of each
    /// `save:` block, as written.
    pub fn parse_save_blocks(text: &str) -> (r: Vec<SaveBlock>)
        ensures
            r.deep_view() == save_requests(regex_captures(SAVE_BLOCK@, text@)),
    {
        let caps = captures_all(SAVE_BLOCK, text);
        Self::save_blocks_from_captures(&caps)
    }

    /// The trimmed bodies of the matches of `MEMORY_BLOCK` that are not
    /// empty.
    pub fn memory_blocks_from_captures(caps: &Vec<Vec<Option<String>>>) -> (r: Vec<String>)
        ensures
            r.deep_view() == memory_facts(caps.deep_view()),
    {
        let mut out: Vec<String> = Vec::new();
        let n = caps.len();
        let mut i: usize = 0;
        assert(out.deep_view() =~= memory_facts(caps.deep_view().take(0)));
        while i < n
            invariant
                n == caps.len(),
                i <= n,
                out.deep_view() == memory_facts(caps.deep_view().take(i as int)),
            decreases n - i,
        {
            let fact = trim(group_text(&caps[i], 1));
            proof {
                let d = caps.deep_view();
                assert(d[i as int] == caps@[i as int].deep_view());
                assert(d.take(i + 1).drop_last() =~= d.take(i as int));
                assert(d.take(i + 1).last() == d[i as int]);
            }
            if fact.unicode_len() > 0 {
                let ghost before = out.deep_view();
                out.push(fact.to_owned());
                assert(out.deep_view() =~= before.push(fact@));
            }
            i += 1;
        }
        assert(caps.deep_view().take(n as int) =~= caps.deep_view());
        out
    }

    /// The facts to remember in `text`: the trimmed body of each `memory`
    /// block, but for bodies that are empty then.
    pub fn parse_memory_blocks(text: &str) -> (r: Vec<String>)
        ensures
            r.deep_view() == memory_facts(regex_captures(MEMORY_BLOCK@, text@)),
    {
        let caps = captures_all(MEMORY_BLOCK, text);
        Self::memory_blocks_from_captures(&caps)
    }

    /// The tag, `text` where there is none, and the trimmed body of each
    /// match of `CODE_BLOCK`.
    pub fn code_blocks_from_captures(caps: &Vec<Vec<Option<String>>>) -> (r: Vec<(String, String)>)
        ensures
            r.deep_view() == code_blocks(caps.deep_view()),
    {
        let mut out: Vec<(String, String)> = Vec::new();
        let n = caps.len();
        let mut i: usize = 0;
        while i < n
            invariant
                n == caps.len(),
                i <= n,
                out.deep_view() == code_blocks(caps.deep_view()).take(i as int),
            decreases n - i,
        {
            let c = &caps[i];
            let tagged = 1 < c.len() && c[1].is_some();
            let lang = if tagged {
                group_text(c, 1)
            } else {
                "text"
            };
            let item = (lang.to_owned(), trim(group_text(c, 2)).to_owned());
            let ghost before = out.deep_view();
            out.push(item);
            proof {
                assert(caps.deep_view()[i as int] == caps@[i as int].deep_view());
                if 1 < c.len() {
                    assert(c.deep_view()[1] == c@[1].deep_view());
                }
                assert(out.deep_view() =~= before.push(item.deep_view()));
                assert(out.deep_view() =~= code_blocks(caps.deep_view()).take(i + 1));
            }
            i += 1;
        }
        assert(code_blocks(caps.deep_view()).take(n as int) =~= code_blocks(caps.deep_view()));
        out
    }

    /// The fenced blocks of `text`, of whatever tag: the tag, `text` where
    /// the block has none, and the trimmed body of each.
    pub fn extract_code_blocks(text: &str) -> (r: Vec<(String, String)>)
        ensures
            r.deep_view() == code_blocks(regex_captures(CODE_BLOCK@, text@)),
    {
        let caps = captures_all(CODE_BLOCK, text);
        Self::code_blocks_from_captures(&caps)
    }

    /// `text` as it is shown to a reader: without its `cron`, `save:` and
    /// `memory` blocks, and trimmed.
    pub fn clean_response(text: &str) -> (r: String)
        ensures
            r@ == cleaned(text@),
    {
        proof {
            reveal_strlit("");
            assert(""@ =~= Seq::<char>::empty());
        }
        let a = replace_all(CRON_BLOCK, text, "");
        let b = replace_all(SAVE_BLOCK, a.as_str(), "");
        let c = replace_all(MEMORY_BLOCK, b.as_str(), "");
        trim(c.as_str()).to_owned()
    }
}

/// Everything that a reply of the backend asks for, and what is shown of it.
#[derive(Debug, Clone)]
pub struct ResponseActions {
    /// The scheduling requests, in the order of their blocks.
    pub jobs: Vec<CronJobData>,
    /// The errors of the `cron` blocks that gave no request.
    pub errors: Vec<String>,
    /// The file-save requests.
    pub saves: Vec<SaveBlock>,
    /// The facts to remember.
    pub facts: Vec<String>,
    /// The reply as the reader sees it.
    pub shown: String,
}

impl Agent {
    /// Reads a reply of the backend: its scheduling requests and their
    /// errors, its file-save requests, its facts, and the text to show.
    pub fn response_actions(text: &str) -> (r: ResponseActions)
        ensures
            r.jobs.deep_view() == accepted(cron_outcomes(regex_captures(CRON_BLOCK@, text@))),
            r.errors.deep_view() == rejected(cron_outcomes(regex_captures(CRON_BLOCK@, text@))),
            r.saves.deep_view() == save_requests(regex_captures(SAVE_BLOCK@, text@)),
            r.facts.deep_view() == memory_facts(regex_captures(MEMORY_BLOCK@, text@)),
            r.shown@ == cleaned(text@),
    {
        let (jobs, errors) = Self::parse_cron_blocks(text);
        let saves = Self::parse_save_blocks(text);
        let facts = Self::parse_memory_blocks(text);
        let shown = Self::clean_response(text);
        ResponseActions { jobs, errors, saves, facts, shown }
    }
}

/// A text in which none of the three special blocks is recognised is only
/// trimmed by cleaning, and holds no scheduling request, no error, no
/// file-save request and no fact.
pub proof fn law_text_without_blocks(text: Seq<char>)
    requires
        regex_captures(CRON_BLOCK@, text).len() == 0,
        regex_captures(SAVE_BLOCK@, text).len() == 0,
        regex_captures(MEMORY_BLOCK@, text).len() == 0,
    ensures
        cleaned(text) == trimmed(text),
        accepted(cron_outcomes(regex_captures(CRON_BLOCK@, text))) == Seq::<CronRequest>::empty(),
        rejected(cron_outcomes(regex_captures(CRON_BLOCK@, text))) == Seq::<Seq<char>>::empty(),
        save_requests(regex_captures(SAVE_BLOCK@, text)) == Seq::<SaveRequest>::empty(),
        memory_facts(regex_captures(MEMORY_BLOCK@, text)) == Seq::<Seq<char>>::empty(),
{
    assert(save_requests(regex_captures(SAVE_BLOCK@, text)) =~= Seq::<SaveRequest>::empty());
}

/// A text in which no fenced block is recognised holds no code block.
pub proof fn law_text_without_code(text: Seq<char>)
    requires
        regex_captures(CODE_BLOCK@, text).len() == 0,
    ensures
        code_blocks(regex_captures(CODE_BLOCK@, text)) == Seq::<(Seq<char>, Seq<char>)>::empty(),
{
    assert(code_blocks(regex_captures(CODE_BLOCK@, text)) =~= Seq::<
        (Seq<char>, Seq<char>),
    >::empty());
}

/// A block whose body decodes to an object with a `schedule` of five fields,
/// a `task` and a `message`, all of them strings, gives the request with the
/// three texts as they stand.
pub proof fn law_complete_block_is_taken_verbatim(
    members: Seq<(Seq<char>, Option<Seq<char>>)>,
    schedule: Seq<char>,
    task: Seq<char>,
    message: Seq<char>,
)
    requires
        member(members, "schedule"@) == Some(Some(schedule)),
        member(members, "task"@) == Some(Some(task)),
        member(members, "message"@) == Some(Some(message)),
        words(schedule).len() == 5,
    ensures
        cron_outcome(Some(members)) == Ok::<CronRequest, Seq<char>>(
            CronRequest { schedule, task, message },
        ),
{
    assert(missing_keys(members) =~= Seq::<Seq<char>>::empty());
}

/// A block whose body decodes to an object without a `message` gives an
/// error that names `message`.
pub proof fn law_missing_message_is_named(members: Seq<(Seq<char>, Option<Seq<char>>)>)
    requires
        member(members, "message"@) is None,
    ensures
        cron_outcome(Some(members)) is Err,
        has_substring(cron_outcome(Some(members))->Err_0, "message"@),
{
    let missing = missing_keys(members);
    let head = "Missing required fields: "@;
    let list = joined(missing, ", "@);
    let key = "message"@;
    assert(missing.len() > 0 && missing.last() == key);
    assert(list.len() >= key.len() && list.subrange(list.len() - key.len(), list.len() as int)
        == key) by {
        if missing.len() == 1 {
            assert(list.subrange(0, list.len() as int) =~= list);
        } else {
            let front = joined(missing.drop_last(), ", "@) + ", "@;
            assert(list == front + key);
            assert((front + key).subrange(front.len() as int, (front + key).len() as int) =~= key);
        }
    }
    let e = head + list;
    let at = e.len() - key.len();
    assert(e.subrange(at, at + key.len()) =~= list.subrange(
        list.len() - key.len(),
        list.len() as int,
    ));
    assert(occurs_at(e, key, at));
}

/// A block with all three members whose `schedule` does not have five
/// fields gives an error that quotes the schedule.
pub proof fn law_short_schedule_is_quoted(members: Seq<(Seq<char>, Option<Seq<char>>)>)
    requires
        missing_keys(members).len() == 0,
        words(member_text(members, "schedule"@)).len() != 5,
    ensures
        cron_outcome(Some(members)) is Err,
        has_substring(cron_outcome(Some(members))->Err_0, member_text(members, "schedule"@)),
{
    let schedule = member_text(members, "schedule"@);
    let head = "Invalid cron format '"@;
    let e = head + schedule + "' - needs 5 fields (minute hour day month weekday)"@;
    assert(e.subrange(head.len() as int, (head.len() + schedule.len()) as int) =~= schedule);
    assert(occurs_at(e, schedule, head.len() as int));
}

} // verus!
