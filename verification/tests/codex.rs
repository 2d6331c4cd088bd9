use discord_agent::codex::{interpret_codex_output, render_prompt_template, CodexRunner};
use discord_agent::config::{AppConfig, EnvValues};
use discord_agent::models::{TaskRecord, TaskType};

#[test]
fn renders_prompt_template_with_local_input() {
    let mut task = TaskRecord::new(1, 1, 1, "title".into(), "prompt".into(), TaskType::Research);
    task.input_source_path = Some("/tmp/input.json".into());
    task.input_payload = Some("{\"hello\":\"world\"}".into());

    let prompt = render_prompt_template(
        "Type: {task_type}\nRequest: {user_request}\n{local_input_section}",
        &task,
    );

    assert!(prompt.contains("Type: research"));
    assert!(prompt.contains("Request: prompt"));
    assert!(prompt.contains("Local input path:\n/tmp/input.json"));
    assert!(prompt.contains("Local input data:\n{\"hello\":\"world\"}"));
}

#[test]
fn renders_prompt_template_without_local_input() {
    let task = TaskRecord::new(1, 1, 1, "title".into(), "prompt".into(), TaskType::Research);

    let prompt = render_prompt_template(
        "Request: {user_request}\n{local_input_section}",
        &task,
    );

    assert!(prompt.contains("Request: prompt"));
    assert!(!prompt.contains("Local input path:"));
}

#[test]
fn renders_every_placeholder_exactly() {
    let mut task = TaskRecord::new(1, 1, 1, "title".into(), "ask".into(), TaskType::Coding);
    task.input_source_path = Some("in.csv".into());
    let prompt = render_prompt_template(
        "{task_type}|{user_request}|{local_input_path}|{local_input_data}|{local_input_section}|{user_request}",
        &task,
    );
    assert_eq!(prompt, "coding|ask|in.csv||Local input path:\nin.csv|ask");
}

#[test]
fn replacement_text_is_not_rescanned() {
    let task = TaskRecord::new(1, 1, 1, "t".into(), "{task_type}".into(), TaskType::Research);
    let prompt = render_prompt_template("{user_request} {task_type}", &task);
    assert_eq!(prompt, "{task_type} research");
}

fn sample_config(model: Option<&str>) -> AppConfig {
    AppConfig {
        discord_token: "token".into(),
        discord_allowed_channel_ids: vec![1],
        sqlite_path: "data/test.sqlite3".into(),
        log_file_path: "logs/test.log".into(),
        research_prompt_path: "prompt.txt".into(),
        codex_bin: "codex".into(),
        codex_model: model.map(|m| m.to_string()),
        worker_concurrency: 1,
        notion_token: None,
        notion_task_database_id: None,
        public_base_url: "http://localhost:3000".into(),
    }
}

#[test]
fn codex_arguments_with_and_without_model() {
    let runner = CodexRunner::new(sample_config(None));
    assert_eq!(runner.codex_arguments("p"), vec!["exec", "--skip-git-repo-check", "p"]);
    let runner = CodexRunner::new(sample_config(Some("gpt")));
    assert_eq!(
        runner.codex_arguments("p"),
        vec!["exec", "--skip-git-repo-check", "--model", "gpt", "p"]
    );
    assert_eq!(runner.config().codex_bin, "codex");
}

#[test]
fn blank_codex_output_is_an_error() {
    let err = interpret_codex_output(" \n".into(), "\t".into(), true).unwrap_err();
    assert_eq!(err.message(), "codex returned no output");
    let ok = interpret_codex_output("".into(), "warning".into(), false).unwrap();
    assert_eq!(ok.stderr, "warning");
    assert!(!ok.success);
}

#[test]
fn config_from_values_applies_defaults() {
    let values = EnvValues {
        discord_token: None,
        discord_allowed_channel_ids: Some("12, 34,x,,+5".into()),
        sqlite_path: None,
        log_file_path: None,
        research_prompt_path: None,
        codex_bin: None,
        codex_model: Some("".into()),
        worker_concurrency: Some("0".into()),
        notion_token: Some("secret".into()),
        notion_task_database_id: Some("".into()),
        public_base_url: None,
    };
    let config = AppConfig::from_values(&values);
    assert_eq!(config.discord_token, "");
    assert_eq!(config.discord_allowed_channel_ids, vec![12, 34, 5]);
    assert_eq!(config.sqlite_path, "data/discord-agent.sqlite3");
    assert_eq!(config.codex_bin, "codex");
    assert_eq!(config.codex_model, None);
    assert_eq!(config.worker_concurrency, 1);
    assert_eq!(config.notion_token.as_deref(), Some("secret"));
    assert_eq!(config.notion_task_database_id, None);
    assert_eq!(config.public_base_url, "http://localhost:3000");
    assert_eq!(config.validate_for_bot().unwrap_err().message(), "DISCORD_TOKEN is required");
}

#[test]
fn worker_count_reads_numbers() {
    let mut values = EnvValues {
        discord_token: Some("t".into()),
        discord_allowed_channel_ids: None,
        sqlite_path: Some("x.db".into()),
        log_file_path: None,
        research_prompt_path: None,
        codex_bin: None,
        codex_model: Some("m".into()),
        worker_concurrency: Some("4".into()),
        notion_token: None,
        notion_task_database_id: None,
        public_base_url: None,
    };
    let config = AppConfig::from_values(&values);
    assert_eq!(config.worker_concurrency, 4);
    assert_eq!(config.sqlite_path, "x.db");
    assert_eq!(config.codex_model.as_deref(), Some("m"));
    assert!(config.discord_allowed_channel_ids.is_empty());
    assert!(config.validate_for_bot().is_ok());
    values.worker_concurrency = Some("-2".into());
    assert_eq!(AppConfig::from_values(&values).worker_concurrency, 1);
    values.worker_concurrency = Some("99999999999999999999999".into());
    assert_eq!(AppConfig::from_values(&values).worker_concurrency, 1);
}

#[test]
fn there_is_always_a_worker() {
    for setting in [Some("0"), Some(""), Some("two"), None, Some("1")] {
        let values = EnvValues {
            discord_token: None,
            discord_allowed_channel_ids: None,
            sqlite_path: None,
            log_file_path: None,
            research_prompt_path: None,
            codex_bin: None,
            codex_model: None,
            worker_concurrency: setting.map(String::from),
            notion_token: None,
            notion_task_database_id: None,
            public_base_url: None,
        };
        assert_eq!(AppConfig::from_values(&values).worker_concurrency, 1);
    }
}
