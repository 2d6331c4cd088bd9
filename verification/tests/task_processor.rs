use discord_agent::codex::CodexOutput;
use discord_agent::models::{TaskRecord, TaskType};
use discord_agent::notion::PublishedPage;
use discord_agent::task_processor::{
    build_public_summary, completion_notice, plan_after_publish, plan_completion,
    prepare_published_task, render_raw_output, CompletionPlan, PublishOutcome,
};

#[test]
fn keeps_only_first_sentence() {
    let summary = build_public_summary("First sentence. Second sentence.");
    assert_eq!(summary, "First sentence.");
}

#[test]
fn keeps_only_first_line() {
    let summary = build_public_summary("First line\nSecond line");
    assert_eq!(summary, "First line");
}

#[test]
fn skips_markdown_heading_when_building_summary() {
    let summary = build_public_summary("**1. 要約**\n住友電工は非鉄・電線分野の大手企業です。");
    assert_eq!(summary, "住友電工は非鉄・電線分野の大手企業です。");
}

#[test]
fn truncates_long_single_sentence() {
    let summary = build_public_summary(&"a".repeat(200));
    assert_eq!(summary.chars().count(), 83);
    assert!(summary.ends_with("..."));
}

#[test]
fn falls_back_for_empty_output() {
    let summary = build_public_summary("   ");
    assert_eq!(summary, "No summary available.");
}

#[test]
fn skips_stream_labels_in_any_case() {
    assert_eq!(build_public_summary("StdOut\n\n## Summary? no\nreal"), "## Summary?");
    assert_eq!(build_public_summary("STDOUT\nbody text here!"), "body text here!");
    assert_eq!(build_public_summary("# 2) 主要ポイント\n- point"), "- point");
}

#[test]
fn uses_whole_output_when_every_line_is_structural() {
    assert_eq!(build_public_summary("## 要約\n**"), "## 要約");
}

fn output(stdout: &str, stderr: &str, success: bool) -> CodexOutput {
    CodexOutput { stdout: stdout.into(), stderr: stderr.into(), success }
}

#[test]
fn raw_output_keeps_stdout_alone_without_stderr() {
    assert_eq!(render_raw_output(&output(" out \n", "  ", true)), " out \n");
    assert_eq!(
        render_raw_output(&output(" out \n", " err\n", true)),
        "STDOUT\nout\n\nSTDERR\nerr"
    );
}

#[test]
fn failed_runs_are_never_published() {
    match plan_completion("id1", &Err("spawn failed".to_string())) {
        CompletionPlan::Fail { error_text, raw_output, notice } => {
            assert_eq!(error_text, "spawn failed");
            assert!(raw_output.is_none());
            assert_eq!(notice, "Task `id1` failed.\nspawn failed");
        }
        _ => panic!("a run that could not start must fail the task"),
    }
    match plan_completion("id2", &Ok(output("partial", "boom", false))) {
        CompletionPlan::Fail { error_text, raw_output, notice } => {
            assert_eq!(error_text, "codex exited with a non-zero status");
            assert_eq!(raw_output.as_deref(), Some("STDOUT\npartial\n\nSTDERR\nboom"));
            assert_eq!(notice, "Task `id2` failed.\nSTDOUT\npartial\n\nSTDERR\nboom");
        }
        _ => panic!("an unsuccessful run must fail the task"),
    }
}

#[test]
fn successful_runs_are_published() {
    match plan_completion("id3", &Ok(output("Done. More.", "", true))) {
        CompletionPlan::Publish { raw_output, public_summary, notice } => {
            assert_eq!(raw_output, "Done. More.");
            assert_eq!(public_summary, "Done.");
            assert_eq!(notice, "Task `id3` is summarizing.");
        }
        _ => panic!("a successful run must be published"),
    }
}

#[test]
fn prepared_task_is_completed_and_published() {
    let task = TaskRecord::new(1, 2, 3, "t".into(), "p".into(), TaskType::Research);
    let id = task.id.clone();
    let done = prepare_published_task(task, "raw".into(), "sum".into(), "2024-01-01T00:00:00Z".into());
    assert_eq!(done.id, id);
    assert!(done.publish);
    assert_eq!(done.completed_at.as_deref(), Some("2024-01-01T00:00:00Z"));
    assert_eq!(done.updated_at, "2024-01-01T00:00:00Z");
    assert_eq!(done.raw_output.as_deref(), Some("raw"));
    assert_eq!(done.public_summary.as_deref(), Some("sum"));
}

#[test]
fn completion_notice_names_the_page() {
    let page = PublishedPage { id: "p".into(), url: "https://notion.so/p".into() };
    assert_eq!(
        completion_notice("t1", Some(&page)),
        "Task `t1` completed.\nNotion Page: https://notion.so/p"
    );
    assert_eq!(completion_notice("t1", None), "Task `t1` completed.");
}

#[test]
fn summaries_are_never_empty_nor_long() {
    assert_eq!(build_public_summary("!!! wow"), "!");
    assert_eq!(build_public_summary("\n\n.\n"), ".");
    for output in ["x", " \n ", "## 要約\n", &"長".repeat(500)] {
        let summary = build_public_summary(output);
        let n = summary.chars().count();
        assert!(n > 0 && n <= 83);
    }
}

#[test]
fn publishing_decides_completion_or_failure() {
    let page = PublishedPage { id: "p1".into(), url: "https://notion.so/p1".into() };
    match plan_after_publish("t1", &Ok(Some(page))) {
        PublishOutcome::Complete { notion_page_id, notion_page_url, notice } => {
            assert_eq!(notion_page_id.as_deref(), Some("p1"));
            assert_eq!(notion_page_url.as_deref(), Some("https://notion.so/p1"));
            assert_eq!(notice, "Task `t1` completed.\nNotion Page: https://notion.so/p1");
        }
        _ => panic!("a created page completes the task"),
    }
    match plan_after_publish("t1", &Ok(None)) {
        PublishOutcome::Complete { notion_page_id, notion_page_url, notice } => {
            assert!(notion_page_id.is_none() && notion_page_url.is_none());
            assert_eq!(notice, "Task `t1` completed.");
        }
        _ => panic!("an unconfigured Notion completes the task"),
    }
    match plan_after_publish("t1", &Err("notion create page returned error: 400".into())) {
        PublishOutcome::Fail { error_text, notice } => {
            assert_eq!(error_text, "notion create page returned error: 400");
            assert_eq!(notice, "Task `t1` failed.\nnotion create page returned error: 400");
        }
        _ => panic!("a failed publish fails the task"),
    }
}
