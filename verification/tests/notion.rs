use discord_agent::codex::CodexOutput;
use discord_agent::task_processor::render_raw_output;
use discord_agent::json::JsonValue;
use discord_agent::models::{PublicTaskSummary, TaskRecord, TaskType};
use discord_agent::notion::{
    build_page_children, build_public_summary_text, check_notion_status, display_prompt,
    extract_date, extract_plain_text, find_public_task, parse_report_sections, read_published_page,
    read_published_tasks, task_page_properties, truncate, BlockKind, NotionSettings,
    is_key_points_heading, is_next_steps_heading, is_summary_heading, extract_stdout,
};

#[test]
fn parses_structured_report_sections() {
    let mut task = TaskRecord::new(1, 1, 1, "title".into(), "prompt".into(), TaskType::Research);
    task.raw_output = Some(
        "STDOUT\n## 1. 要約\n短い要約です。\n\n## 2. 主要ポイント\n- 一つ目\n- 二つ目\n\n## 3. 次に見るべき点\n- 次A\n- 次B\n\nSTDERR\nignored".into(),
    );
    task.public_summary = Some("公開用の一文。".into());

    let report = parse_report_sections(&task);
    assert_eq!(report.summary, "短い要約です。");
    assert_eq!(report.key_points, vec!["一つ目", "二つ目"]);
    assert_eq!(report.next_steps, vec!["次A", "次B"]);
}

#[test]
fn parses_bold_numbered_headings() {
    let mut task = TaskRecord::new(1, 1, 1, "title".into(), "prompt".into(), TaskType::Research);
    task.raw_output = Some(
        "STDOUT\n**1. 要約**\n最初の要約です。\n\n**2. 主要ポイント**\n* 観点A\n\n**3. 次に見るべき点**\n* 確認A".into(),
    );

    let report = parse_report_sections(&task);
    assert_eq!(report.summary, "最初の要約です。");
    assert_eq!(report.key_points, vec!["観点A"]);
    assert_eq!(report.next_steps, vec!["確認A"]);
}

#[test]
fn falls_back_to_public_summary_when_sections_missing() {
    let mut task = TaskRecord::new(1, 1, 1, "title".into(), "prompt".into(), TaskType::Research);
    task.public_summary = Some("公開用の一文。".into());
    task.raw_output = Some("STDOUT\n自由形式の本文".into());

    let report = parse_report_sections(&task);
    assert_eq!(report.summary, "公開用の一文。");
    assert!(report.key_points.is_empty());
    assert!(report.next_steps.is_empty());
}

#[test]
fn omits_input_data_section_for_discord_tasks() {
    let mut task = TaskRecord::new(1, 1, 1, "title".into(), "prompt".into(), TaskType::Research);
    task.public_summary = Some("公開用の一文。".into());

    let report = parse_report_sections(&task);
    let children = build_page_children(&task, &report);
    let serialized = format!("{:?}", children);

    assert!(!serialized.contains("入力データ概要"));
    assert!(!serialized.contains("No local input data."));
    assert!(!serialized.contains("STDERR"));
}

#[test]
fn includes_input_data_section_for_cli_tasks() {
    let mut task = TaskRecord::new(0, 0, 0, "title".into(), "prompt".into(), TaskType::Research);
    task.public_summary = Some("公開用の一文。".into());
    task.input_source_path = Some("/tmp/input.json".into());
    task.input_payload = Some("{\"hello\":\"world\"}".into());

    let report = parse_report_sections(&task);
    let children = build_page_children(&task, &report);
    let serialized = format!("{:?}", children);

    assert!(serialized.contains("入力データ概要"));
}

#[test]
fn keeps_public_summary_short() {
    let mut task = TaskRecord::new(1, 1, 1, "title".into(), "prompt".into(), TaskType::Research);
    task.public_summary = Some("短い一文です。".into());

    assert_eq!(build_public_summary_text(&task), "短い一文です。");
}

#[test]
fn strips_internal_url_section_from_display_prompt() {
    let task = TaskRecord::new(
        1,
        1,
        1,
        "title".into(),
        "原油について教えて\n\nReferenced URLs:\nhttps://example.com".into(),
        TaskType::Research,
    );

    assert_eq!(display_prompt(&task), "原油について教えて");
}

#[test]
fn page_children_follow_the_report() {
    let mut task = TaskRecord::new(7, 1, 1, "title".into(), "  ask me  ".into(), TaskType::Research);
    task.raw_output = Some("## 要約\nA.\nB.\n## 主要ポイント\n- one\n-\n".into());
    let report = parse_report_sections(&task);
    assert_eq!(report.summary, "A.\nB.");
    assert_eq!(report.key_points, vec!["one"]);
    let children = build_page_children(&task, &report);
    let kinds: Vec<BlockKind> = children.iter().map(|b| b.kind).collect();
    assert_eq!(
        kinds,
        vec![
            BlockKind::Heading,
            BlockKind::Paragraph,
            BlockKind::Heading,
            BlockKind::BulletedListItem,
            BlockKind::Heading,
            BlockKind::Paragraph
        ]
    );
    let texts: Vec<&str> = children.iter().map(|b| b.text.as_str()).collect();
    assert_eq!(texts, vec!["要約", "A.\nB.", "主要ポイント", "one", "依頼内容", "ask me"]);
}

#[test]
fn page_properties_of_a_completed_task() {
    let mut task = TaskRecord::new(42, 1, 1, "t".repeat(250), "p".into(), TaskType::Coding);
    task.public_summary = Some(" short ".into());
    let props = task_page_properties(&task, "https://pub.example");
    assert_eq!(props.title.chars().count(), 200);
    assert_eq!(props.status, "Completed");
    assert_eq!(props.task_type, "coding");
    assert_eq!(props.public_summary, "short");
    assert_eq!(props.thread_id, "42");
    assert_eq!(props.public_url, format!("https://pub.example/tasks/{}", task.id));
    assert!(props.publish);
}

#[test]
fn notion_is_used_only_when_configured() {
    let task = TaskRecord::new(1, 1, 1, "t".into(), "p".into(), TaskType::Research);
    let off = NotionSettings { token: Some("x".into()), database_id: None, public_base_url: "u".into() };
    assert!(!off.is_enabled());
    assert!(off.build_task_page(&task).is_none());
    assert_eq!(off.authorization().as_deref(), Some("Bearer x"));
    let on = NotionSettings { token: Some("x".into()), database_id: Some("db".into()), public_base_url: "u".into() };
    let page = on.build_task_page(&task).unwrap();
    assert_eq!(page.database_id, "db");
}

#[test]
fn truncate_counts_characters() {
    assert_eq!(truncate("日本語テキスト", 3), "日本語");
    assert_eq!(truncate("ab", 5), "ab");
}

fn s(v: &str) -> JsonValue {
    JsonValue::Str(v.into())
}

fn obj(members: Vec<(&str, JsonValue)>) -> JsonValue {
    JsonValue::Object(members.into_iter().map(|(k, v)| (k.to_string(), v)).collect())
}

fn page(id_items: Vec<JsonValue>, title: &str, updated: Option<&str>) -> JsonValue {
    let mut props = vec![
        ("Task ID", obj(vec![("rich_text", JsonValue::Array(id_items))])),
        ("Title", obj(vec![("title", JsonValue::Array(vec![obj(vec![("plain_text", s(title))])]))])),
    ];
    if let Some(u) = updated {
        props.push(("Updated At", obj(vec![("date", obj(vec![("start", s(u))]))])));
    }
    obj(vec![("properties", obj(props))])
}

#[test]
fn reads_published_tasks_from_a_query() {
    let body = obj(vec![(
        "results",
        JsonValue::Array(vec![
            page(vec![obj(vec![("plain_text", s("ab"))]), obj(vec![("text", obj(vec![("content", s("c"))]))])], "T1", Some("2024")),
            page(vec![], "skipped", None),
            page(vec![obj(vec![("plain_text", s("z"))])], "T2", None),
        ]),
    )]);
    let tasks = read_published_tasks(&body).unwrap();
    assert_eq!(tasks.len(), 2);
    assert_eq!(tasks[0].task_id, "abc");
    assert_eq!(tasks[0].title, "T1");
    assert_eq!(tasks[0].updated_at, "2024");
    assert_eq!(tasks[0].summary, "");
    assert_eq!(tasks[1].task_id, "z");
    assert_eq!(tasks[1].updated_at, "");
    let missing = read_published_tasks(&obj(vec![])).unwrap_err();
    assert_eq!(missing.message(), "notion query did not include results");
    let found = find_public_task(tasks, "z").unwrap();
    assert_eq!(found.title, "T2");
}

#[test]
fn plain_text_and_dates_of_properties() {
    let props = obj(vec![
        ("Name", obj(vec![("title", JsonValue::Array(vec![obj(vec![("plain_text", s("x"))]), JsonValue::Null]))])),
        ("When", obj(vec![("date", obj(vec![("start", s("2024-05-01"))]))])),
    ]);
    assert_eq!(extract_plain_text(&props, "Name"), "x");
    assert_eq!(extract_plain_text(&props, "Missing"), "");
    assert_eq!(extract_date(&props, "When").as_deref(), Some("2024-05-01"));
    assert_eq!(extract_date(&props, "Name"), None);
}

#[test]
fn reads_created_page() {
    let ok = read_published_page(&obj(vec![("id", s("p1")), ("url", s("https://n/p1"))])).unwrap();
    assert_eq!(ok.id, "p1");
    assert_eq!(ok.url, "https://n/p1");
    assert_eq!(
        read_published_page(&obj(vec![("url", s("u"))])).unwrap_err().message(),
        "notion response did not include page id"
    );
    assert_eq!(
        read_published_page(&obj(vec![("id", s("i"))])).unwrap_err().message(),
        "notion response did not include page url"
    );
}

#[test]
fn notion_status_outside_success_is_an_error() {
    assert!(check_notion_status("notion query", 204, "204 No Content".into(), "".into()).is_ok());
    let err = check_notion_status("notion query", 404, "404 Not Found".into(), "{}".into()).unwrap_err();
    assert_eq!(err.message(), "notion query returned error: 404 Not Found {}");
}

#[test]
fn finds_no_task_for_an_unknown_id() {
    let tasks = vec![PublicTaskSummary {
        task_id: "a".into(),
        title: "t".into(),
        summary: "s".into(),
        completed_at: None,
        updated_at: "u".into(),
    }];
    assert!(find_public_task(tasks, "b").is_none());
}

#[test]
fn shown_prompt_is_the_request_again() {
    let request = "  このページを要約して https://example.com/a  ";
    let prompt = discord_agent::discord_bot::build_prompt_from_message(request);
    assert!(prompt.contains("Referenced URLs"));
    let task = TaskRecord::new(1, 1, 1, "t".into(), prompt, TaskType::Research);
    assert_eq!(display_prompt(&task), request.trim());
}

#[test]
fn a_report_always_has_a_summary() {
    let mut task = TaskRecord::new(1, 1, 1, "t".into(), "p".into(), TaskType::Research);
    task.public_summary = Some("   ".into());
    task.raw_output = Some("STDOUT\n   \n\nSTDERR\nwarning".into());
    let report = parse_report_sections(&task);
    assert_eq!(report.summary, "warning");
    task.raw_output = Some("## 主要ポイント\n- \n-\n- kept".into());
    let report = parse_report_sections(&task);
    assert_eq!(report.key_points, vec!["kept"]);
    assert!(!report.summary.is_empty());
}

#[test]
fn page_blocks_keep_within_limits() {
    let mut task = TaskRecord::new(1, 1, 1, "t".into(), "q".repeat(3000), TaskType::Research);
    task.raw_output = Some(format!("## 要約\n{}\n## 主要ポイント\n- {}", "s".repeat(2500), "k".repeat(1900)));
    let report = parse_report_sections(&task);
    let children = build_page_children(&task, &report);
    for b in &children {
        let limit = if b.kind == BlockKind::Heading { 200 } else { 1800 };
        assert!(b.text.chars().count() <= limit);
    }
    assert_eq!(children[1].text, "s".repeat(1800));
    assert_eq!(children[3].text, "k".repeat(1800));
    assert_eq!(children[5].text, "q".repeat(1800));
}

fn chars(s: &str) -> Vec<char> {
    s.chars().collect()
}

#[test]
fn recognises_section_headings() {
    assert!(is_summary_heading(&chars("## 1. 要約")));
    assert!(is_summary_heading(&chars("**2) 要約**")));
    assert!(!is_summary_heading(&chars("要約")));
    assert!(is_key_points_heading(&chars("# 主要ポイント")));
    assert!(is_next_steps_heading(&chars("3. 次に見るべき点")));
    assert!(!is_next_steps_heading(&chars("- 次に見るべき点")));
}

#[test]
fn stored_output_gives_back_stdout() {
    for err in ["## 主要ポイント\n- from stderr", ""] {
        let raw = render_raw_output(&CodexOutput {
            stdout: "  ## 要約\n本文です。  \n".into(),
            stderr: err.into(),
            success: true,
        });
        let mut task = TaskRecord::new(1, 1, 1, "t".into(), "p".into(), TaskType::Research);
        task.raw_output = Some(raw);
        let report = parse_report_sections(&task);
        assert_eq!(report.summary, "本文です。");
        assert!(report.key_points.is_empty());
    }
}

#[test]
fn feed_query_asks_for_published_tasks_newest_first() {
    let off = NotionSettings { token: None, database_id: Some("db".into()), public_base_url: "u".into() };
    assert!(off.published_tasks_query(100).is_none());
    let on = NotionSettings {
        token: Some("t".into()),
        database_id: Some("db1".into()),
        public_base_url: "u".into(),
    };
    let q = on.published_tasks_query(25).unwrap();
    assert_eq!(q.endpoint, "https://api.notion.com/v1/databases/db1/query");
    assert_eq!(q.page_size, 25);
    assert_eq!((q.filter_property.as_str(), q.filter_checkbox_equals), ("Publish", true));
    assert_eq!((q.sort_property.as_str(), q.sort_descending), ("Updated At", true));
}

#[test]
fn stdout_part_of_rendered_output() {
    let chars = |s: &str| s.chars().collect::<Vec<char>>();
    for (out, err) in [("  answer\nmore  ", "warn"), (" plain ", ""), ("x\n\n", " \n ")] {
        let raw = render_raw_output(&CodexOutput { stdout: out.into(), stderr: err.into(), success: true });
        assert_eq!(extract_stdout(&chars(&raw)), chars(out.trim()));
    }
}
