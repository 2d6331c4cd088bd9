//! The Discord bot's decisions: which commands it serves and where, the tasks it creates
//! from a request, and the messages it answers with.
use vstd::prelude::*;

use crate::config::AppConfig;
use crate::models::{status_name, TaskRecord, TaskStatus, TaskType};
use crate::order::{insert_sorted, listed_once_in_order, seq_less, strictly_sorted};
use crate::text::{
    chars_of, contains, contains_seq, extend, slice, string_of, strings_of, string_views,
    take_chars_vec, trim, trim_by, trim_by_vec, trim_vec, views, words, split_by_vec,
    CharClass, first_line, first_line_vec,
};

verus! {

// ----------------------------------------------------------------------------------------
// Messages
// ----------------------------------------------------------------------------------------
/// At most 1500 characters of `v`, followed by a line `...` where `v` was longer.
pub open spec fn discord_text(v: Seq<char>) -> Seq<char> {
    if v.len() > 1500 {
        v.take(1500) + "\n..."@
    } else {
        v
    }
}

pub fn truncate_for_discord(value: &str) -> (s: String)
    ensures
        s@ == discord_text(value@),
{
    let chars = chars_of(value);
    let mut s = string_of(&take_chars_vec(&chars, 1500));
    if chars.len() > 1500 {
        s.append("\n...");
    }
    s
}

pub open spec fn usage_text() -> Seq<char> {
    "Use `/research` to start a task in this channel.\nUse `/status` to check a Task ID.\nUse `/help` to show this message."@
}

/// How to use the bot.
pub fn usage_message() -> (s: &'static str)
    ensures
        s@ == usage_text(),
{
    "Use `/research` to start a task in this channel.\nUse `/status` to check a Task ID.\nUse `/help` to show this message."
}

/// A task's status as the `/status` command shows it: id, title and status, then the
/// summary of a completed task or the error of a failed one, where there is one.
pub open spec fn task_status_text(task: TaskRecord) -> Seq<char> {
    let head = "Task ID: `"@ + task.id@ + "`\nTitle: "@ + task.title@ + "\nStatus: "@ + status_name(
        task.status,
    );
    match task.status {
        TaskStatus::Completed => match task.public_summary {
            Some(s) => head + "\nSummary:\n"@ + discord_text(s@),
            None => head,
        },
        TaskStatus::Failed => match task.error_text {
            Some(e) => head + "\nError:\n"@ + discord_text(e@),
            None => head,
        },
        _ => head,
    }
}

pub fn render_task_status(task: &TaskRecord) -> (s: String)
    ensures
        s@ == task_status_text(*task),
{
    let mut message = String::from_str("Task ID: `");
    message.append(task.id.as_str());
    message.append("`\nTitle: ");
    message.append(task.title.as_str());
    message.append("\nStatus: ");
    message.append(task.status.as_str());
    match task.status {
        TaskStatus::Completed => {
            if let Some(summary) = &task.public_summary {
                message.append("\nSummary:\n");
                let t = truncate_for_discord(summary.as_str());
                message.append(t.as_str());
            }
        },
        TaskStatus::Failed => {
            if let Some(error_text) = &task.error_text {
                message.append("\nError:\n");
                let t = truncate_for_discord(error_text.as_str());
                message.append(t.as_str());
            }
        },
        _ => {},
    }
    message
}

// ----------------------------------------------------------------------------------------
// Titles, prompts and URLs
// ----------------------------------------------------------------------------------------
/// A task's title: the first line of the request, trimmed and cut to 80 characters with
/// `...`; `default` where that leaves nothing.
pub open spec fn title_from(content: Seq<char>, default: Seq<char>) -> Seq<char> {
    let t = trim(first_line(content));
    let cut = if t.len() > 80 {
        t.take(80) + "..."@
    } else {
        t
    };
    if cut.len() == 0 {
        default
    } else {
        cut
    }
}

/// The title of a task; `default` where the request's first line is blank.
pub fn title_with_default(content: &str, default: &str) -> (s: String)
    ensures
        s@ == title_from(content@, default@),
{
    proof {
        reveal_strlit("...");
    }
    let chars = chars_of(content);
    let line = first_line_vec(&chars);
    let t = trim_vec(&line);
    let cut = if t.len() > 80 {
        let mut c = slice(&t, 0, 80);
        extend(&mut c, &chars_of("..."));
        assert(t@.subrange(0, 80) =~= t@.take(80));
        c
    } else {
        t
    };
    if cut.len() == 0 {
        String::from_str(default)
    } else {
        string_of(&cut)
    }
}

/// The title of a task requested on Discord.
pub fn build_title(content: &str) -> (s: String)
    ensures
        s@ == title_from(content@, "Discord task"@),
{
    title_with_default(content, "Discord task")
}

/// Whether `url::Url::parse` accepts the text as an absolute URL. What it accepts is the
/// WHATWG URL grammar that the `url` crate implements; it is named here, not restated.
pub uninterp spec fn url_parses(input: Seq<char>) -> bool;

/// `url::Url::parse(input).is_ok()`: the contract claims only that the answer is the one
/// that `url_parses` names for the same text.
#[verifier::external_body]
fn parses_as_url(input: &str) -> (ok: bool)
    ensures
        ok == url_parses(input@),
{
    url::Url::parse(input).is_ok()
}

/// A word with the punctuation around it removed.
pub open spec fn url_candidate(w: Seq<char>) -> Seq<char> {
    trim_by(w, CharClass::UrlPunct)
}

/// The candidates of the words that parse as URLs, in order.
pub open spec fn urls_in(ws: Seq<Seq<char>>) -> Seq<Seq<char>>
    decreases ws.len(),
{
    if ws.len() == 0 {
        Seq::empty()
    } else if url_parses(url_candidate(ws.last())) {
        urls_in(ws.drop_last()).push(url_candidate(ws.last()))
    } else {
        urls_in(ws.drop_last())
    }
}

/// The URL candidates of a message: its whitespace-separated words without the punctuation
/// around them, in order.
pub open spec fn candidates_of(content: Seq<char>) -> Seq<Seq<char>> {
    words(content).map_values(|w: Seq<char>| url_candidate(w))
}

/// Candidates paired with whether they parse as URLs.
pub open spec fn checked_view(v: Seq<(String, bool)>) -> Seq<(Seq<char>, bool)> {
    v.map_values(|p: (String, bool)| (p.0@, p.1))
}

/// The candidates that parse, in order.
pub open spec fn accepted(checked: Seq<(Seq<char>, bool)>) -> Seq<Seq<char>>
    decreases checked.len(),
{
    if checked.len() == 0 {
        Seq::empty()
    } else if checked.last().1 {
        accepted(checked.drop_last()).push(checked.last().0)
    } else {
        accepted(checked.drop_last())
    }
}

/// The URLs of a message: its whitespace-separated words that, without surrounding
/// punctuation, parse as URLs; each once, in lexicographic order.
pub open spec fn extracted_urls_ok(content: Seq<char>, urls: Seq<Seq<char>>) -> bool {
    listed_once_in_order(urls, urls_in(words(content)))
}

/// The URL candidates of a message.
pub fn url_candidates(content: &str) -> (c: Vec<String>)
    ensures
        string_views(c@) == candidates_of(content@),
{
    let chars = chars_of(content);
    let ws = split_by_vec(&chars, CharClass::Whitespace, false);
    let ghost wv = views(ws@);
    let mut c: Vec<String> = Vec::new();
    let mut i: usize = 0;
    while i < ws.len()
        invariant
            i <= ws.len(),
            wv == views(ws@),
            wv == words(content@),
            string_views(c@) =~= candidates_of(content@).take(i as int),
        decreases ws.len() - i,
    {
        let candidate = trim_by_vec(&ws[i], CharClass::UrlPunct);
        let ghost before = string_views(c@);
        c.push(string_of(&candidate));
        assert(string_views(c@) =~= before.push(url_candidate(wv[i as int])));
        i = i + 1;
    }
    c
}

/// The candidates that parse, each once, in lexicographic order.
pub fn select_urls(checked: &Vec<(String, bool)>) -> (urls: Vec<String>)
    ensures
        listed_once_in_order(string_views(urls@), accepted(checked_view(checked@))),
{
    let ghost cv = checked_view(checked@);
    let mut found: Vec<Vec<char>> = Vec::new();
    let mut i: usize = 0;
    assert(cv.take(0) =~= Seq::<(Seq<char>, bool)>::empty());
    assert(views(found@) =~= Seq::<Seq<char>>::empty());
    while i < checked.len()
        invariant
            i <= checked.len(),
            cv == checked_view(checked@),
            strictly_sorted(views(found@)),
            forall|u: Seq<char>|
                views(found@).contains(u) <==> accepted(cv.take(i as int)).contains(u),
        decreases checked.len() - i,
    {
        assert(cv.take(i + 1).drop_last() =~= cv.take(i as int));
        assert(cv.take(i + 1).last() == cv[i as int]);
        let ghost before = accepted(cv.take(i as int));
        if checked[i].1 {
            let candidate = chars_of(checked[i].0.as_str());
            let ghost c = candidate@;
            assert(accepted(cv.take(i + 1)) == before.push(c));
            insert_sorted(&mut found, candidate);
            assert forall|u: Seq<char>| before.push(c).contains(u) <==> (before.contains(u) || u
                == c) by {
                if before.push(c).contains(u) {
                    let k = choose|k: int| 0 <= k < before.push(c).len() && before.push(c)[k] == u;
                    if k < before.len() {
                        assert(before[k] == u);
                    }
                }
                if before.contains(u) {
                    let k = choose|k: int| 0 <= k < before.len() && before[k] == u;
                    assert(before.push(c)[k] == u);
                }
                if u == c {
                    assert(before.push(c)[before.len() as int] == c);
                }
            }
        } else {
            assert(accepted(cv.take(i + 1)) == before);
        }
        i = i + 1;
    }
    assert(cv.take(checked.len() as int) =~= cv);
    strings_of(&found)
}

pub fn extract_urls(content: &str) -> (urls: Vec<String>)
    ensures
        extracted_urls_ok(content@, string_views(urls@)),
{
    let candidates = url_candidates(content);
    let ghost wv = words(content@);
    let ghost cands = string_views(candidates@);
    let mut checked: Vec<(String, bool)> = Vec::new();
    let mut i: usize = 0;
    assert(wv.take(0) =~= Seq::<Seq<char>>::empty());
    assert(checked_view(checked@) =~= Seq::<(Seq<char>, bool)>::empty());
    while i < candidates.len()
        invariant
            i <= candidates.len(),
            cands == string_views(candidates@),
            cands == candidates_of(content@),
            wv == words(content@),
            cands.len() == wv.len(),
            accepted(checked_view(checked@)) == urls_in(wv.take(i as int)),
        decreases candidates.len() - i,
    {
        assert(wv.take(i + 1).drop_last() =~= wv.take(i as int));
        assert(wv.take(i + 1).last() == wv[i as int]);
        assert(cands[i as int] == url_candidate(wv[i as int]));
        let ok = parses_as_url(candidates[i].as_str());
        let ghost before = checked_view(checked@);
        checked.push((candidates[i].clone(), ok));
        assert(checked_view(checked@) =~= before.push((cands[i as int], ok)));
        assert(checked_view(checked@).drop_last() =~= before);
        i = i + 1;
    }
    assert(wv.take(wv.len() as int) =~= wv);
    select_urls(&checked)
}

/// The request as Codex is given it: the message, then a section that lists its URLs one per
/// line, where it has any.
pub open spec fn prompt_from_message(content: Seq<char>, urls: Seq<Seq<char>>) -> Seq<char> {
    if urls.len() == 0 {
        content
    } else {
        content + "\n\nReferenced URLs:\n"@ + joined_lines(urls)
    }
}

/// The items joined by newlines.
pub open spec fn joined_lines(items: Seq<Seq<char>>) -> Seq<char>
    decreases items.len(),
{
    if items.len() == 0 {
        Seq::empty()
    } else if items.len() == 1 {
        items[0]
    } else {
        joined_lines(items.drop_last()) + "\n"@ + items.last()
    }
}

fn join_lines(items: &Vec<String>) -> (s: String)
    ensures
        s@ == joined_lines(string_views(items@)),
{
    let ghost iv = string_views(items@);
    let mut s = String::new();
    let mut i: usize = 0;
    assert(iv.take(0) =~= Seq::<Seq<char>>::empty());
    proof {
        reveal_strlit("");
    }
    while i < items.len()
        invariant
            i <= items.len(),
            iv == string_views(items@),
            s@ == joined_lines(iv.take(i as int)),
        decreases items.len() - i,
    {
        assert(iv.take(i + 1).drop_last() =~= iv.take(i as int));
        assert(iv.take(i + 1).last() == items@[i as int]@);
        if i > 0 {
            s.append("\n");
        } else {
            assert(iv.take(1)[0] == items@[0]@);
        }
        s.append(items[i].as_str());
        i = i + 1;
    }
    assert(iv.take(items.len() as int) =~= iv);
    s
}

pub fn build_prompt_from_message(content: &str) -> (s: String)
    ensures
        exists|urls: Seq<Seq<char>>|
            extracted_urls_ok(content@, urls) && s@ == prompt_from_message(content@, urls),
{
    let urls = extract_urls(content);
    if urls.len() == 0 {
        assert(string_views(urls@).len() == 0);
        return String::from_str(content);
    }
    let mut s = String::from_str(content);
    s.append("\n\nReferenced URLs:\n");
    let joined = join_lines(&urls);
    s.append(joined.as_str());
    s
}

// ----------------------------------------------------------------------------------------
// Kinds of request
// ----------------------------------------------------------------------------------------
/// A request that asks for code: one that mentions `codex exec`, "コードを書いて" (write
/// code), `fix` or `refactor`. Such requests are coding tasks, which this version does not
/// run.
pub open spec fn asks_for_code(content: Seq<char>) -> bool {
    ||| contains(content, "codex exec"@)
    ||| contains(content, write_code_words())
    ||| contains(content, "fix"@)
    ||| contains(content, "refactor"@)
}

/// "コードを書いて" (write code).
pub open spec fn write_code_words() -> Seq<char> {
    seq!['\u{30b3}', '\u{30fc}', '\u{30c9}', '\u{3092}', '\u{66f8}', '\u{3044}', '\u{3066}']
}

pub fn infer_task_type(content: &str) -> (t: TaskType)
    ensures
        t == (if asks_for_code(content@) {
            TaskType::Coding
        } else {
            TaskType::Research
        }),
{
    let chars = chars_of(content);
    let write_code = vec!['\u{30b3}', '\u{30fc}', '\u{30c9}', '\u{3092}', '\u{66f8}', '\u{3044}', '\u{3066}'];
    assert(write_code@ =~= write_code_words());
    if contains_seq(&chars, &chars_of("codex exec")) || contains_seq(&chars, &write_code)
        || contains_seq(&chars, &chars_of("fix")) || contains_seq(&chars, &chars_of("refactor")) {
        TaskType::Coding
    } else {
        TaskType::Research
    }
}

} // verus!

verus! {

// ----------------------------------------------------------------------------------------
// Commands
// ----------------------------------------------------------------------------------------
/// The slash commands that the bot serves.
#[derive(Clone, Copy, Debug, PartialEq, Eq, Structural)]
pub enum SlashCommand {
    Research,
    Status,
    Help,
    Other,
}

pub open spec fn command_named(name: Seq<char>) -> SlashCommand {
    if name == "research"@ {
        SlashCommand::Research
    } else if name == "status"@ {
        SlashCommand::Status
    } else if name == "help"@ {
        SlashCommand::Help
    } else {
        SlashCommand::Other
    }
}

pub fn parse_command_name(name: &str) -> (c: SlashCommand)
    ensures
        c == command_named(name@),
{
    if crate::text::str_equal(name, "research") {
        SlashCommand::Research
    } else if crate::text::str_equal(name, "status") {
        SlashCommand::Status
    } else if crate::text::str_equal(name, "help") {
        SlashCommand::Help
    } else {
        SlashCommand::Other
    }
}

pub fn is_allowed_channel(config: &AppConfig, channel_id: u64) -> (b: bool)
    ensures
        b == config.discord_allowed_channel_ids@.contains(channel_id),
{
    let ids = &config.discord_allowed_channel_ids;
    let mut i: usize = 0;
    while i < ids.len()
        invariant
            i <= ids.len(),
            ids@ == config.discord_allowed_channel_ids@,
            forall|j: int| 0 <= j < i ==> ids@[j] != channel_id,
        decreases ids.len() - i,
    {
        if ids[i] == channel_id {
            assert(ids@[i as int] == channel_id);
            return true;
        }
        i = i + 1;
    }
    false
}

/// An option of a slash command: its name and, where it is a string, its value.
#[derive(Clone, Debug)]
pub struct CommandOption {
    pub name: String,
    pub value: Option<String>,
}

/// The value of the first option called `name`.
pub open spec fn option_value(options: Seq<CommandOption>, name: Seq<char>) -> Option<Seq<char>>
    decreases options.len(),
{
    if options.len() == 0 {
        None
    } else if options[0].name@ == name {
        match options[0].value {
            Some(v) => Some(v@),
            None => None,
        }
    } else {
        option_value(options.drop_first(), name)
    }
}

pub fn command_option_string(options: &Vec<CommandOption>, option_name: &str) -> (r: Option<
    String,
>)
    ensures
        match option_value(options@, option_name@) {
            Some(v) => r is Some && r->0@ == v,
            None => r is None,
        },
{
    let mut i: usize = 0;
    assert(options@.skip(0) =~= options@);
    while i < options.len()
        invariant
            i <= options.len(),
            option_value(options@, option_name@) == option_value(
                options@.skip(i as int),
                option_name@,
            ),
        decreases options.len() - i,
    {
        assert(options@.skip(i as int).drop_first() =~= options@.skip(i + 1));
        assert(options@.skip(i as int)[0] == options@[i as int]);
        if crate::text::str_equal(options[i].name.as_str(), option_name) {
            return match &options[i].value {
                Some(v) => Some(v.clone()),
                None => None,
            };
        }
        i = i + 1;
    }
    None
}

/// Why a command is refused where it was given: outside a server, or in a channel that is
/// not allowed; nothing where it may run.
pub open spec fn command_refusal(config: AppConfig, in_guild: bool, channel_id: u64) -> Option<
    Seq<char>,
> {
    if !in_guild {
        Some("Use this bot inside an allowed server channel."@)
    } else if !config.discord_allowed_channel_ids@.contains(channel_id) {
        Some("This bot can only be used in configured Discord channels."@)
    } else {
        None
    }
}

pub fn refusal_for(config: &AppConfig, in_guild: bool, channel_id: u64) -> (r: Option<String>)
    ensures
        match command_refusal(*config, in_guild, channel_id) {
            Some(m) => r is Some && r->0@ == m,
            None => r is None,
        },
{
    if !in_guild {
        Some(String::from_str("Use this bot inside an allowed server channel."))
    } else if !is_allowed_channel(config, channel_id) {
        Some(String::from_str("This bot can only be used in configured Discord channels."))
    } else {
        None
    }
}

/// What the bot does with a `/research` command.
#[derive(Debug)]
pub enum ResearchDecision {
    /// Answer privately with this message and do nothing else.
    Refuse(String),
    /// Create a research task with this title and prompt.
    Accept { title: String, prompt: String },
}

pub open spec fn coding_refusal_text() -> Seq<char> {
    "Coding tasks are not accepted yet; only research tasks run in this version."@
}

/// A `/research` command: refused outside allowed channels, without a prompt, or when it
/// asks for code; otherwise a research task titled after the prompt's first line.
pub fn plan_research_command(
    config: &AppConfig,
    in_guild: bool,
    channel_id: u64,
    prompt: Option<String>,
) -> (d: ResearchDecision)
    ensures
        match command_refusal(*config, in_guild, channel_id) {
            Some(m) => d == ResearchDecision::Refuse(d->Refuse_0) && d->Refuse_0@ == m,
            None => match prompt {
                None => d is Refuse && d->Refuse_0@ == "Missing required option: prompt"@,
                Some(p) => if asks_for_code(p@) {
                    d is Refuse && d->Refuse_0@ == coding_refusal_text()
                } else {
                    d is Accept && d->title@ == title_from(p@, "Discord task"@) && exists|
                        urls: Seq<Seq<char>>,
                    |
                        extracted_urls_ok(p@, urls) && d->prompt@ == prompt_from_message(p@, urls)
                },
            },
        },
{
    if let Some(m) = refusal_for(config, in_guild, channel_id) {
        return ResearchDecision::Refuse(m);
    }
    let p = match prompt {
        Some(p) => p,
        None => {
            return ResearchDecision::Refuse(String::from_str("Missing required option: prompt"));
        },
    };
    if infer_task_type(p.as_str()) == TaskType::Coding {
        return ResearchDecision::Refuse(
            String::from_str(
                "Coding tasks are not accepted yet; only research tasks run in this version.",
            ),
        );
    }
    ResearchDecision::Accept {
        title: build_title(p.as_str()),
        prompt: build_prompt_from_message(p.as_str()),
    }
}

/// The public answer to an accepted request.
pub open spec fn accepted_text(title: Seq<char>, id: Seq<char>) -> Seq<char> {
    "Accepted task `"@ + title + "`.\nStatus: queued\nTask ID: `"@ + id + "`"@
}

pub fn accepted_message(task: &TaskRecord) -> (s: String)
    ensures
        s@ == accepted_text(task.title@, task.id@),
{
    let mut s = String::from_str("Accepted task `");
    s.append(task.title.as_str());
    s.append("`.\nStatus: queued\nTask ID: `");
    s.append(task.id.as_str());
    s.append("`");
    s
}

/// A `/status` command: the refusal, or the id of the task to look up.
pub fn plan_status_command(
    config: &AppConfig,
    in_guild: bool,
    channel_id: u64,
    task_id: Option<String>,
) -> (r: Result<String, String>)
    ensures
        match command_refusal(*config, in_guild, channel_id) {
            Some(m) => r is Err && r->Err_0@ == m,
            None => match task_id {
                None => r is Err && r->Err_0@ == "Missing required option: task_id"@,
                Some(id) => r == Ok::<String, String>(id),
            },
        },
{
    if let Some(m) = refusal_for(config, in_guild, channel_id) {
        return Err(m);
    }
    match task_id {
        Some(id) => Ok(id),
        None => Err(String::from_str("Missing required option: task_id")),
    }
}

/// The answer to a status lookup: the task's status, or that there is no such task.
pub fn status_reply(task_id: &str, task: Option<&TaskRecord>) -> (s: String)
    ensures
        match task {
            Some(t) => s@ == task_status_text(*t),
            None => s@ == "Task not found: `"@ + task_id@ + "`"@,
        },
{
    match task {
        Some(t) => render_task_status(t),
        None => {
            let mut s = String::from_str("Task not found: `");
            s.append(task_id);
            s.append("`");
            s
        },
    }
}

/// The answer to `/help`: the usage where the command may run, else the refusal.
pub fn help_reply(config: &AppConfig, in_guild: bool, channel_id: u64) -> (s: String)
    ensures
        match command_refusal(*config, in_guild, channel_id) {
            Some(m) => s@ == m,
            None => s@ == usage_text(),
        },
{
    match refusal_for(config, in_guild, channel_id) {
        Some(m) => m,
        None => String::from_str(usage_message()),
    }
}

/// Plain messages get the usage as an answer, where they are not the bot's own kind, are
/// posted in a server, and in an allowed channel.
pub fn answers_message(config: &AppConfig, author_is_bot: bool, in_guild: bool, channel_id: u64) -> (b:
    bool)
    ensures
        b == (!author_is_bot && in_guild && config.discord_allowed_channel_ids@.contains(
            channel_id,
        )),
{
    !author_is_bot && in_guild && is_allowed_channel(config, channel_id)
}

/// The progress message when a task starts running.
pub fn running_notice(task_id: &str) -> (s: String)
    ensures
        s@ == "Task `"@ + task_id@ + "` is now running."@,
{
    let mut s = String::from_str("Task `");
    s.append(task_id);
    s.append("` is now running.");
    s
}

// ----------------------------------------------------------------------------------------
// Laws
// ----------------------------------------------------------------------------------------
/// A message cut for Discord never has more than 1504 characters; it begins with the first
/// 1500 characters of the text, and text of at most 1500 characters is left as it is.
pub proof fn discord_text_fits(v: Seq<char>)
    ensures
        discord_text(v).len() <= 1504,
        v.len() <= 1500 ==> discord_text(v) == v,
        v.len() > 1500 ==> discord_text(v).take(1500) == v.take(1500),
{
    reveal_strlit("\n...");
    if v.len() > 1500 {
        assert(discord_text(v).take(1500) =~= v.take(1500));
    }
}

/// Commands run exactly in the allowed channels of a server: a command given outside a
/// server (a direct message) is always refused, whatever its channel.
pub proof fn commands_run_only_in_allowed_server_channels(config: AppConfig, in_guild: bool, channel_id: u64)
    ensures
        command_refusal(config, in_guild, channel_id) is None <==> (in_guild
            && config.discord_allowed_channel_ids@.contains(channel_id)),
        command_refusal(config, false, channel_id) is Some,
{
}

/// A task's title is never empty when the fallback is not: it is either the fallback or a
/// non-empty line of at most 83 characters (80 and `...`).
pub proof fn titles_are_short(content: Seq<char>, default: Seq<char>)
    ensures
        title_from(content, default) == default || (0 < title_from(content, default).len()
            <= 83),
{
    reveal_strlit("...");
}

/// A list that holds given items once each, in lexicographic order, is determined by the
/// items: two such lists are the same list, and no item occurs in one twice. So the URLs of
/// a message, and the URLs selected from checked candidates, are determined.
pub proof fn url_lists_are_determined(items: Seq<Seq<char>>, a: Seq<Seq<char>>, b: Seq<Seq<char>>)
    requires
        listed_once_in_order(a, items),
        listed_once_in_order(b, items),
    ensures
        a == b,
        forall|i: int, j: int| 0 <= i < j < a.len() ==> a[i] != a[j],
{
    crate::order::sorted_lists_with_same_elements_are_equal(a, b);
    assert forall|i: int, j: int| 0 <= i < j < a.len() implies a[i] != a[j] by {
        assert(seq_less(a[i], a[j]));
        crate::order::lemma_less_irreflexive(a[i]);
    }
}

} // verus!
