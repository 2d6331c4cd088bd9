use discord_agent::cli::{build_title, new_local_task, parse_cli, read_flag, CliCommand};
use discord_agent::local_input::{
    build_input_summary, choose_input_files, combine_input_files, is_supported_extension,
    DirEntry, LoadedInput,
};

fn args(v: &[&str]) -> Vec<String> {
    v.iter().map(|s| s.to_string()).collect()
}

#[test]
fn reads_flags_in_order() {
    let a = args(&["submit", "--prompt", "p", "--path", "d"]);
    let (prompt, next) = read_flag(&a, 1, "--prompt").unwrap();
    assert_eq!((prompt.as_str(), next), ("p", 3));
    let (path, _) = read_flag(&a, next, "--path").unwrap();
    assert_eq!(path, "d");
    assert_eq!(read_flag(&a, 3, "--prompt").unwrap_err().message(), "missing required flag --prompt");
    let last = args(&["status", "--task-id"]);
    assert_eq!(read_flag(&last, 1, "--task-id").unwrap_err().message(), "missing value for --task-id");
}

#[test]
fn parses_commands() {
    match parse_cli(&args(&["submit", "--prompt", "p", "--path", "d"])).unwrap() {
        CliCommand::Submit { prompt, path } => assert_eq!((prompt.as_str(), path.as_str()), ("p", "d")),
        _ => panic!("submit expected"),
    }
    match parse_cli(&args(&["worker", "--task-id", "t"])).unwrap() {
        CliCommand::Worker { task_id } => assert_eq!(task_id, "t"),
        _ => panic!("worker expected"),
    }
    assert_eq!(
        parse_cli(&args(&["submit", "--path", "d", "--prompt", "p"])).unwrap_err().message(),
        "missing required flag --path"
    );
    assert_eq!(parse_cli(&args(&[])).unwrap_err().message(), "usage: agent-cli <submit|status|result|worker> ...");
    assert_eq!(parse_cli(&args(&["go"])).unwrap_err().message(), "unknown command: go");
}

#[test]
fn local_tasks_carry_their_input() {
    assert_eq!(build_title(""), "Local analysis task");
    let task = new_local_task(
        "analyse\nmore".into(),
        LoadedInput { source_path: "/d".into(), payload: "x".into() },
    );
    assert_eq!(task.title, "analyse");
    assert_eq!(task.input_source_path.as_deref(), Some("/d"));
    assert_eq!(task.input_payload.as_deref(), Some("x"));
    assert_eq!(task.thread_id, 0);
}

#[test]
fn summarises_input() {
    assert_eq!(build_input_summary("/p", "ab\nc\n"), "Source Path: /p\nCharacters: 5\nLines: 2");
    assert_eq!(build_input_summary("/p", ""), "Source Path: /p\nCharacters: 0\nLines: 0");
    assert_eq!(build_input_summary("/p", "a\r\n\nb"), "Source Path: /p\nCharacters: 5\nLines: 3");
}

#[test]
fn supported_extensions_and_sections() {
    assert!(is_supported_extension("md"));
    assert!(is_supported_extension("csv"));
    assert!(!is_supported_extension("MD"));
    assert!(!is_supported_extension("rs"));
    let files = vec![
        LoadedInput { source_path: "d/a.txt".into(), payload: "A".into() },
        LoadedInput { source_path: "d/b.md".into(), payload: "B".into() },
    ];
    assert_eq!(combine_input_files(&files), "File: d/a.txt\nA\n\n---\n\nFile: d/b.md\nB");
}

fn entry(path: &str, extension: Option<&str>, is_file: bool) -> DirEntry {
    DirEntry { path: path.into(), extension: extension.map(String::from), is_file }
}

#[test]
fn chooses_supported_files_in_path_order() {
    let entries = vec![
        entry("in/b.md", Some("md"), true),
        entry("in/sub.txt", Some("txt"), false),
        entry("in/a.json", Some("json"), true),
        entry("in/c.png", Some("png"), true),
        entry("in/README", None, true),
        entry("in/A.csv", Some("csv"), true),
    ];
    assert_eq!(choose_input_files("in", &entries).unwrap(), vec!["in/A.csv", "in/a.json", "in/b.md"]);
    let none = vec![entry("in/c.png", Some("png"), true), entry("in/d.TXT", Some("TXT"), true)];
    assert_eq!(
        choose_input_files("in", &none).unwrap_err().message(),
        "input directory does not contain supported files: in"
    );
    assert!(choose_input_files("in", &vec![]).is_err());
}

#[test]
fn an_empty_command_line_is_the_usage_error() {
    assert!(matches!(parse_cli(&args(&[])), Err(discord_agent::error::AgentError::CliUsage)));
}
