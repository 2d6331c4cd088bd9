//! What the library decides around a Codex CLI run: the prompt it is given, the command
//! line, and how its output is judged.
use vstd::prelude::*;

use crate::config::{value_or, AppConfig};
use crate::error::AgentError;
use crate::models::{task_type_name, TaskRecord};
use crate::text::{chars_of, replace_all, replace_all_vec, string_of, string_views, trim, trim_vec};

verus! {

/// What a Codex run printed, and whether it exited successfully.
#[derive(Clone, Debug)]
pub struct CodexOutput {
    pub stdout: String,
    pub stderr: String,
    pub success: bool,
}

/// Runs research tasks with the Codex CLI that the settings name.
#[derive(Clone)]
pub struct CodexRunner {
    config: AppConfig,
}

impl View for CodexRunner {
    type V = AppConfig;

    closed spec fn view(&self) -> AppConfig {
        self.config
    }
}

/// The section of the prompt that describes the local input, if the task has one.
pub open spec fn local_input_section(path: Option<String>, payload: Option<String>) -> Seq<char> {
    match (path, payload) {
        (Some(p), Some(d)) => "Local input path:\n"@ + p@ + "\n\nLocal input data:\n"@ + d@,
        (Some(p), None) => "Local input path:\n"@ + p@,
        _ => Seq::empty(),
    }
}

/// The template with its placeholders filled in, one after the other.
pub open spec fn rendered_prompt(template: Seq<char>, task: TaskRecord) -> Seq<char> {
    let a = replace_all(template, "{task_type}"@, task_type_name(task.task_type));
    let b = replace_all(a, "{user_request}"@, task.prompt@);
    let c = replace_all(b, "{local_input_path}"@, value_or(task.input_source_path, Seq::empty()));
    let d = replace_all(c, "{local_input_data}"@, value_or(task.input_payload, Seq::empty()));
    replace_all(
        d,
        "{local_input_section}"@,
        local_input_section(task.input_source_path, task.input_payload),
    )
}

/// The arguments given to the Codex CLI.
pub open spec fn codex_args(model: Option<String>, prompt: Seq<char>) -> Seq<Seq<char>> {
    let head = seq!["exec"@, "--skip-git-repo-check"@];
    let with_model = match model {
        Some(m) => head + seq!["--model"@, m@],
        None => head,
    };
    with_model.push(prompt)
}

impl CodexRunner {
    pub fn new(config: AppConfig) -> (r: CodexRunner)
        ensures
            r@ == config,
    {
        CodexRunner { config }
    }

    /// The settings that the runner uses.
    pub fn config(&self) -> (c: &AppConfig)
        ensures
            *c == self@,
    {
        &self.config
    }

    /// The command-line arguments of a research run with this prompt.
    pub fn codex_arguments(&self, prompt: &str) -> (args: Vec<String>)
        ensures
            string_views(args@) == codex_args(self@.codex_model, prompt@),
    {
        let mut args: Vec<String> = Vec::new();
        args.push(String::from_str("exec"));
        args.push(String::from_str("--skip-git-repo-check"));
        let ghost head = seq!["exec"@, "--skip-git-repo-check"@];
        assert(string_views(args@) =~= head);
        match &self.config.codex_model {
            Some(m) => {
                args.push(String::from_str("--model"));
                args.push(m.clone());
                assert(string_views(args@) =~= head + seq!["--model"@, m@]);
            },
            None => {},
        }
        let ghost before = string_views(args@);
        args.push(String::from_str(prompt));
        assert(string_views(args@) =~= before.push(prompt@));
        args
    }
}

/// Judges a finished run: a run that printed nothing but whitespace on both streams is an
/// error; any other run is kept as it came.
pub fn interpret_codex_output(stdout: String, stderr: String, success: bool) -> (r: Result<
    CodexOutput,
    AgentError,
>)
    ensures
        (trim(stdout@).len() == 0 && trim(stderr@).len() == 0) ==> r == Err::<
            CodexOutput,
            AgentError,
        >(AgentError::CodexNoOutput),
        !(trim(stdout@).len() == 0 && trim(stderr@).len() == 0) ==> r == Ok::<
            CodexOutput,
            AgentError,
        >(CodexOutput { stdout, stderr, success }),
{
    let out_chars = chars_of(stdout.as_str());
    let err_chars = chars_of(stderr.as_str());
    let out_trimmed = trim_vec(&out_chars);
    let err_trimmed = trim_vec(&err_chars);
    if out_trimmed.len() == 0 && err_trimmed.len() == 0 {
        return Err(AgentError::CodexNoOutput);
    }
    Ok(CodexOutput { stdout, stderr, success })
}

/// The local-input section of a task's prompt.
pub fn build_local_input_section(task: &TaskRecord) -> (s: String)
    ensures
        s@ == local_input_section(task.input_source_path, task.input_payload),
{
    match (&task.input_source_path, &task.input_payload) {
        (Some(path), Some(payload)) => {
            let mut s = String::from_str("Local input path:\n");
            s.append(path.as_str());
            s.append("\n\nLocal input data:\n");
            s.append(payload.as_str());
            s
        },
        (Some(path), None) => {
            let mut s = String::from_str("Local input path:\n");
            s.append(path.as_str());
            s
        },
        _ => {
            let s = String::new();
            s
        },
    }
}

fn replace_in(s: &Vec<char>, pattern: &str, replacement: &Vec<char>) -> (r: Vec<char>)
    requires
        pattern@.len() > 0,
    ensures
        r@ == replace_all(s@, pattern@, replacement@),
{
    let p = chars_of(pattern);
    replace_all_vec(s, &p, replacement)
}

/// Fills the placeholders `{task_type}`, `{user_request}`, `{local_input_path}`,
/// `{local_input_data}` and `{local_input_section}` of a prompt template.
pub fn render_prompt_template(template: &str, task: &TaskRecord) -> (s: String)
    ensures
        s@ == rendered_prompt(template@, *task),
{
    proof {
        reveal_strlit("{task_type}");
        reveal_strlit("{user_request}");
        reveal_strlit("{local_input_path}");
        reveal_strlit("{local_input_data}");
        reveal_strlit("{local_input_section}");
        reveal_strlit("");
    }
    let section = build_local_input_section(task);
    let t = chars_of(template);
    let kind_name = chars_of(task.task_type.as_str());
    let a = replace_in(&t, "{task_type}", &kind_name);
    let prompt = chars_of(task.prompt.as_str());
    let b = replace_in(&a, "{user_request}", &prompt);
    let path = match &task.input_source_path {
        Some(p) => chars_of(p.as_str()),
        None => Vec::new(),
    };
    let c = replace_in(&b, "{local_input_path}", &path);
    let payload = match &task.input_payload {
        Some(p) => chars_of(p.as_str()),
        None => Vec::new(),
    };
    let d = replace_in(&c, "{local_input_data}", &payload);
    let section_chars = chars_of(section.as_str());
    let e = replace_in(&d, "{local_input_section}", &section_chars);
    string_of(&e)
}

} // verus!
