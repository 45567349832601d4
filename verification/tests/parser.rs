use rustyclaw::agent::Agent;

fn fence(tag: &str, body: &str) -> String {
    format!("```{}\n{}\n```", tag, body)
}

#[test]
fn complete_cron_block_is_taken_verbatim() {
    let text = fence(
        "cron",
        "{\"schedule\": \"*/5 * * * *\", \"task\": \"ping\", \"message\": \"say hello\"}",
    );
    let (jobs, errors) = Agent::parse_cron_blocks(&text);
    assert!(errors.is_empty());
    assert_eq!(jobs.len(), 1);
    assert_eq!(jobs[0].schedule, "*/5 * * * *");
    assert_eq!(jobs[0].task, "ping");
    assert_eq!(jobs[0].message, "say hello");
}

#[test]
fn cron_block_without_message_is_an_error() {
    let text = fence("cron", "{\"schedule\": \"0 9 * * *\", \"task\": \"t\"}");
    let (jobs, errors) = Agent::parse_cron_blocks(&text);
    assert!(jobs.is_empty());
    assert_eq!(errors.len(), 1);
    assert!(errors[0].contains("message"));
    assert_eq!(errors[0], "Missing required fields: message");
}

#[test]
fn cron_block_missing_everything_lists_the_keys_in_order() {
    let text = fence("cron", "{}");
    let (jobs, errors) = Agent::parse_cron_blocks(&text);
    assert!(jobs.is_empty());
    assert_eq!(errors, vec!["Missing required fields: schedule, task, message".to_string()]);
}

#[test]
fn cron_block_with_four_fields_names_the_schedule() {
    let text = fence("cron", "{\"schedule\": \"0 9 * *\", \"task\": \"t\", \"message\": \"m\"}");
    let (jobs, errors) = Agent::parse_cron_blocks(&text);
    assert!(jobs.is_empty());
    assert_eq!(
        errors,
        vec![
            "Invalid cron format '0 9 * *' - needs 5 fields (minute hour day month weekday)"
                .to_string()
        ]
    );
}

#[test]
fn cron_block_with_broken_json_is_an_error() {
    let text = fence("cron", "{not json");
    let (jobs, errors) = Agent::parse_cron_blocks(&text);
    assert!(jobs.is_empty());
    assert_eq!(errors, vec!["Invalid JSON in cron block".to_string()]);
}

#[test]
fn one_bad_block_does_not_swallow_the_others() {
    let good = "{\"schedule\": \"0 9 * * 1\", \"task\": \"a\", \"message\": \"b\"}";
    let text = format!(
        "first\n{}\nthen\n{}\nand\n{}\nend",
        fence("cron", good),
        fence("cron", "[1, 2"),
        fence("cron", good)
    );
    let (jobs, errors) = Agent::parse_cron_blocks(&text);
    assert_eq!(jobs.len(), 2);
    assert_eq!(errors.len(), 1);
    assert_eq!(jobs[1].schedule, "0 9 * * 1");
}

#[test]
fn cron_member_that_is_no_string_reads_as_empty() {
    let text = fence("cron", "{\"schedule\": 5, \"task\": \"t\", \"message\": \"m\"}");
    let (jobs, errors) = Agent::parse_cron_blocks(&text);
    assert!(jobs.is_empty());
    assert_eq!(
        errors,
        vec!["Invalid cron format '' - needs 5 fields (minute hour day month weekday)".to_string()]
    );
}

#[test]
fn cron_body_that_is_no_object_lacks_every_key() {
    let text = fence("cron", "[1, 2, 3]");
    let (_, errors) = Agent::parse_cron_blocks(&text);
    assert_eq!(errors, vec!["Missing required fields: schedule, task, message".to_string()]);
}

#[test]
fn cron_task_and_message_that_are_no_strings_read_as_empty() {
    let text = fence("cron", "{\"schedule\": \"1 2 3 4 5\", \"task\": null, \"message\": 7}");
    let (jobs, errors) = Agent::parse_cron_blocks(&text);
    assert!(errors.is_empty());
    assert_eq!(jobs.len(), 1);
    assert_eq!(jobs[0].task, "");
    assert_eq!(jobs[0].message, "");
}

#[test]
fn cron_block_outcome_on_given_members() {
    let members = vec![
        ("message".to_string(), Some("m".to_string())),
        ("schedule".to_string(), Some("  1  2\t3 4 5 ".to_string())),
        ("task".to_string(), Some("t".to_string())),
    ];
    let job = Agent::cron_block_outcome(Some(members)).unwrap();
    assert_eq!(job.schedule, "  1  2\t3 4 5 ");
    assert_eq!(job.task, "t");
    assert_eq!(job.message, "m");
    assert_eq!(Agent::cron_block_outcome(None).unwrap_err(), "Invalid JSON in cron block");
    let partial = vec![("task".to_string(), None)];
    assert_eq!(
        Agent::cron_block_outcome(Some(partial)).unwrap_err(),
        "Missing required fields: schedule, message"
    );
}

#[test]
fn cron_blocks_from_given_captures() {
    let body = "  {\"schedule\": \"1 2 3 4 5\", \"task\": \"t\", \"message\": \"m\"}  ";
    let caps = vec![
        vec![Some("whole".to_string()), Some(body.to_string())],
        vec![Some("whole".to_string()), None],
        vec![Some("whole".to_string())],
    ];
    let (jobs, errors) = Agent::cron_blocks_from_captures(&caps);
    assert_eq!(jobs.len(), 1);
    assert_eq!(jobs[0].message, "m");
    assert_eq!(
        errors,
        vec!["Invalid JSON in cron block".to_string(), "Invalid JSON in cron block".to_string()]
    );
}

#[test]
fn save_block_is_captured_verbatim() {
    let text = format!("here\n{}\nbye", fence("save:notes.txt", "  line one  "));
    let blocks = Agent::parse_save_blocks(&text);
    assert_eq!(blocks.len(), 1);
    assert_eq!(blocks[0].filename, "notes.txt");
    assert_eq!(blocks[0].content, "  line one  ");
}

#[test]
fn save_tag_with_white_space_is_no_save_block() {
    let text = fence("save: notes.txt", "x");
    assert!(Agent::parse_save_blocks(&text).is_empty());
}

#[test]
fn memory_blocks_are_trimmed_and_empty_ones_dropped() {
    let text = format!(
        "{}\n{}\n{}",
        fence("memory", "  likes tea  "),
        fence("memory", "has a cat"),
        fence("memory", "   ")
    );
    assert_eq!(
        Agent::parse_memory_blocks(&text),
        vec!["likes tea".to_string(), "has a cat".to_string()]
    );
}

#[test]
fn code_blocks_default_to_text() {
    let text = format!("{}\n{}", fence("python", " print(1) "), fence("", "plain"));
    assert_eq!(
        Agent::extract_code_blocks(&text),
        vec![
            ("python".to_string(), "print(1)".to_string()),
            ("text".to_string(), "plain".to_string())
        ]
    );
}

#[test]
fn code_blocks_from_given_captures() {
    let caps = vec![
        vec![Some("w".to_string()), None, Some(" a ".to_string())],
        vec![Some("w".to_string()), Some("rs".to_string()), Some("b".to_string())],
        vec![Some("w".to_string())],
    ];
    assert_eq!(
        Agent::code_blocks_from_captures(&caps),
        vec![
            ("text".to_string(), "a".to_string()),
            ("rs".to_string(), "b".to_string()),
            ("text".to_string(), "".to_string())
        ]
    );
}

#[test]
fn clean_response_removes_the_three_special_blocks_only() {
    let code = fence("python", "print(1)");
    let text = format!(
        "  Hello.\n{}\n{}\n{}\n{}\nBye.  ",
        fence("cron", "{}"),
        code,
        fence("save:a.txt", "body"),
        fence("memory", "fact")
    );
    assert_eq!(Agent::clean_response(&text), format!("Hello.\n\n{}\n\n\nBye.", code));
}

#[test]
fn text_without_blocks_is_only_trimmed() {
    let text = " \t just prose, with ``` in it \n";
    assert_eq!(Agent::clean_response(text), "just prose, with ``` in it");
    let (jobs, errors) = Agent::parse_cron_blocks(text);
    assert!(jobs.is_empty() && errors.is_empty());
    assert!(Agent::parse_save_blocks(text).is_empty());
    assert!(Agent::parse_memory_blocks(text).is_empty());
    assert!(Agent::extract_code_blocks(text).is_empty());
}

#[test]
fn a_json_body_on_two_lines_is_one_request() {
    let text = [
        "```cron\n",
        r#"{"schedule":"0 9 * * *","#,
        "\n",
        r#""task":"t","message":"m"}"#,
        "\n```",
    ]
    .concat();
    let (jobs, errors) = Agent::parse_cron_blocks(&text);
    assert!(errors.is_empty());
    assert_eq!(jobs.len(), 1);
    assert_eq!(jobs[0].schedule, "0 9 * * *");
    assert_eq!(jobs[0].task, "t");
    assert_eq!(jobs[0].message, "m");
}

#[test]
fn a_json_body_laid_out_over_many_lines_is_one_request() {
    let body = "{\n  \"schedule\": \"*/5 * * * *\",\n  \"task\": \"ping\",\n\n  \"message\": \"say\\nhello\"\n}";
    let text = format!("Sure.\n{}\nDone.", fence("cron", body));
    let (jobs, errors) = Agent::parse_cron_blocks(&text);
    assert!(errors.is_empty());
    assert_eq!(jobs.len(), 1);
    assert_eq!(jobs[0].schedule, "*/5 * * * *");
    assert_eq!(jobs[0].message, "say\nhello");
    assert_eq!(Agent::clean_response(&text), "Sure.\n\nDone.");
}

#[test]
fn a_body_of_several_lines_belongs_to_its_block() {
    let text = fence("memory", "one\ntwo");
    assert_eq!(Agent::parse_memory_blocks(&text), vec!["one\ntwo".to_string()]);
    assert_eq!(Agent::clean_response(&text), "");
}

#[test]
fn a_file_of_several_lines_is_saved_whole() {
    let content = "def f():\n    return 1\n\nprint(f())";
    let text = format!("Here:\n{}\nThat is all.", fence("save:f.py", content));
    let blocks = Agent::parse_save_blocks(&text);
    assert_eq!(blocks.len(), 1);
    assert_eq!(blocks[0].filename, "f.py");
    assert_eq!(blocks[0].content, content);
    assert_eq!(Agent::clean_response(&text), "Here:\n\nThat is all.");
}

#[test]
fn code_of_several_lines_is_one_block() {
    let code = "fn main() {\n    println!(\"hi\");\n}";
    let text = format!("{}\nand\n{}", fence("rust", code), fence("", "a\nb"));
    assert_eq!(
        Agent::extract_code_blocks(&text),
        vec![("rust".to_string(), code.to_string()), ("text".to_string(), "a\nb".to_string())]
    );
    assert_eq!(Agent::clean_response(&text), text);
}

#[test]
fn blocks_of_several_lines_do_not_run_into_each_other() {
    let text = format!(
        "{}\nbetween\n{}\n{}",
        fence("memory", "a\nb"),
        fence("cron", "{\n}"),
        fence("memory", "c\n\nd")
    );
    assert_eq!(Agent::parse_memory_blocks(&text), vec!["a\nb".to_string(), "c\n\nd".to_string()]);
    let (jobs, errors) = Agent::parse_cron_blocks(&text);
    assert!(jobs.is_empty());
    assert_eq!(errors, vec!["Missing required fields: schedule, task, message".to_string()]);
    assert_eq!(Agent::clean_response(&text), "between");
}
