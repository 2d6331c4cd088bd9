use discord_agent::config::AppConfig;
use discord_agent::discord_bot::{
    accepted_message, answers_message, build_prompt_from_message, build_title,
    command_option_string, extract_urls, help_reply, infer_task_type, parse_command_name,
    plan_research_command, plan_status_command, render_task_status, running_notice,
    select_urls, status_reply, truncate_for_discord, url_candidates, usage_message,
    CommandOption, ResearchDecision, SlashCommand,
};
use discord_agent::models::{TaskRecord, TaskStatus, TaskType};

#[test]
fn extracts_urls_from_message() {
    let urls = extract_urls("look at https://example.com and https://example.com/a.");
    assert_eq!(urls.len(), 2);
}

#[test]
fn keeps_prompt_and_url_section() {
    let prompt = build_prompt_from_message("summarize https://example.com");
    assert!(prompt.contains("Referenced URLs"));
}

#[test]
fn usage_mentions_all_commands() {
    let usage = usage_message();
    assert!(usage.contains("/research"));
    assert!(usage.contains("/status"));
    assert!(usage.contains("/help"));
}

#[test]
fn completed_status_includes_summary() {
    let mut task = TaskRecord::new(1, 1, 1, "hello".into(), "prompt".into(), TaskType::Research);
    task.status = TaskStatus::Completed;
    task.public_summary = Some("done".into());
    let message = render_task_status(&task);
    assert!(message.contains("done"));
}

#[test]
fn urls_come_sorted_and_once() {
    let urls = extract_urls("(https://b.example/x), https://a.example [https://b.example/x] plain");
    assert_eq!(urls, vec!["https://a.example", "https://b.example/x"]);
    assert!(extract_urls("no links here.").is_empty());
}

#[test]
fn prompt_lists_urls_one_per_line() {
    assert_eq!(
        build_prompt_from_message("see https://b.example and https://a.example"),
        "see https://b.example and https://a.example\n\nReferenced URLs:\nhttps://a.example\nhttps://b.example"
    );
    assert_eq!(build_prompt_from_message("just words"), "just words");
}

#[test]
fn titles_come_from_the_first_line() {
    assert_eq!(build_title("  first line  \nsecond"), "first line");
    assert_eq!(build_title(""), "Discord task");
    assert_eq!(build_title("   \nbody"), "Discord task");
    let long = "x".repeat(81);
    assert_eq!(build_title(&long), format!("{}...", "x".repeat(80)));
    assert_eq!(build_title(&"y".repeat(80)), "y".repeat(80));
}

#[test]
fn discord_text_is_cut_at_1500_characters() {
    assert_eq!(truncate_for_discord("short"), "short");
    let long = "あ".repeat(1501);
    let cut = truncate_for_discord(&long);
    assert_eq!(cut, format!("{}\n...", "あ".repeat(1500)));
}

#[test]
fn failed_status_shows_the_error() {
    let mut task = TaskRecord::new(1, 1, 1, "t".into(), "p".into(), TaskType::Research);
    task.status = TaskStatus::Failed;
    task.error_text = Some("boom".into());
    task.public_summary = Some("hidden".into());
    let message = render_task_status(&task);
    assert_eq!(message, format!("Task ID: `{}`\nTitle: t\nStatus: failed\nError:\nboom", task.id));
    task.status = TaskStatus::Running;
    assert_eq!(render_task_status(&task), format!("Task ID: `{}`\nTitle: t\nStatus: running", task.id));
}

fn config() -> AppConfig {
    AppConfig {
        discord_token: "token".into(),
        discord_allowed_channel_ids: vec![10, 20],
        sqlite_path: "s".into(),
        log_file_path: "l".into(),
        research_prompt_path: "r".into(),
        codex_bin: "codex".into(),
        codex_model: None,
        worker_concurrency: 1,
        notion_token: None,
        notion_task_database_id: None,
        public_base_url: "http://localhost:3000".into(),
    }
}

#[test]
fn research_commands_outside_allowed_channels_are_refused() {
    let c = config();
    match plan_research_command(&c, false, 10, Some("x".into())) {
        ResearchDecision::Refuse(m) => assert_eq!(m, "Use this bot inside an allowed server channel."),
        _ => panic!("a DM must be refused"),
    }
    match plan_research_command(&c, true, 11, Some("x".into())) {
        ResearchDecision::Refuse(m) => {
            assert_eq!(m, "This bot can only be used in configured Discord channels.")
        }
        _ => panic!("a disallowed channel must be refused"),
    }
    match plan_research_command(&c, true, 20, None) {
        ResearchDecision::Refuse(m) => assert_eq!(m, "Missing required option: prompt"),
        _ => panic!("a missing prompt must be refused"),
    }
    match plan_research_command(&c, true, 20, Some("please refactor this".into())) {
        ResearchDecision::Refuse(m) => assert!(m.starts_with("Coding tasks")),
        _ => panic!("a coding request must be refused"),
    }
    match plan_research_command(&c, true, 20, Some("調べて https://x.example".into())) {
        ResearchDecision::Accept { title, prompt } => {
            assert_eq!(title, "調べて https://x.example");
            assert_eq!(prompt, "調べて https://x.example\n\nReferenced URLs:\nhttps://x.example");
        }
        _ => panic!("a research request must be accepted"),
    }
}

#[test]
fn coding_requests_are_recognised() {
    assert_eq!(infer_task_type("run codex exec now"), TaskType::Coding);
    assert_eq!(infer_task_type("コードを書いて"), TaskType::Coding);
    assert_eq!(infer_task_type("please fix it"), TaskType::Coding);
    assert_eq!(infer_task_type("summarize the news"), TaskType::Research);
}

#[test]
fn status_and_help_commands() {
    let c = config();
    assert_eq!(plan_status_command(&c, true, 10, Some("abc".into())).unwrap(), "abc");
    assert_eq!(
        plan_status_command(&c, true, 10, None).unwrap_err(),
        "Missing required option: task_id"
    );
    assert_eq!(status_reply("nope", None), "Task not found: `nope`");
    assert_eq!(help_reply(&c, true, 10), usage_message());
    assert_eq!(help_reply(&c, false, 10), "Use this bot inside an allowed server channel.");
    assert!(answers_message(&c, false, true, 20));
    assert!(!answers_message(&c, true, true, 20));
    assert!(!answers_message(&c, false, true, 21));
}

#[test]
fn command_names_and_options() {
    assert_eq!(parse_command_name("research"), SlashCommand::Research);
    assert_eq!(parse_command_name("status"), SlashCommand::Status);
    assert_eq!(parse_command_name("help"), SlashCommand::Help);
    assert_eq!(parse_command_name("other"), SlashCommand::Other);
    let options = vec![
        CommandOption { name: "prompt".into(), value: None },
        CommandOption { name: "prompt".into(), value: Some("second".into()) },
        CommandOption { name: "task_id".into(), value: Some("t".into()) },
    ];
    assert_eq!(command_option_string(&options, "prompt"), None);
    assert_eq!(command_option_string(&options, "task_id").as_deref(), Some("t"));
    assert_eq!(command_option_string(&options, "x"), None);
}

#[test]
fn accepted_and_running_messages() {
    let task = TaskRecord::new(1, 1, 1, "T".into(), "p".into(), TaskType::Research);
    assert_eq!(
        accepted_message(&task),
        format!("Accepted task `T`.\nStatus: queued\nTask ID: `{}`", task.id)
    );
    assert_eq!(running_notice("x"), "Task `x` is now running.");
}

#[test]
fn direct_messages_are_always_refused() {
    let c = config();
    for channel in [0u64, 10, 20, 99] {
        assert_eq!(help_reply(&c, false, channel), "Use this bot inside an allowed server channel.");
        assert!(plan_status_command(&c, false, channel, Some("id".into())).is_err());
        assert!(!answers_message(&c, false, false, channel));
    }
}

#[test]
fn each_url_is_listed_once() {
    let urls = extract_urls("https://a.example https://a.example. (https://a.example)");
    assert_eq!(urls, vec!["https://a.example"]);
}

#[test]
fn candidates_are_words_without_punctuation() {
    assert_eq!(
        url_candidates("see (https://a.example/x), [b]. done"),
        vec!["see", "https://a.example/x", "b", "done"]
    );
    assert!(url_candidates("   ").is_empty());
}

#[test]
fn selected_urls_are_the_parsing_candidates_sorted_once() {
    let checked = vec![
        ("https://b.example".to_string(), true),
        ("words".to_string(), false),
        ("https://a.example".to_string(), true),
        ("https://b.example".to_string(), true),
    ];
    assert_eq!(select_urls(&checked), vec!["https://a.example", "https://b.example"]);
    assert!(select_urls(&vec![("x".to_string(), false)]).is_empty());
}
