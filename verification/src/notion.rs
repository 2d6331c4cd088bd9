//! What a task's Notion page says, how a report is read into sections, and how Notion's
//! answers are read back.
use vstd::prelude::*;

use crate::config::{value_or, AppConfig};
use crate::discord_bot::{joined_lines, prompt_from_message};
use crate::error::AgentError;
use crate::json::{as_items, as_text, field, field_of, get, get_in, text_of, JsonValue};
use crate::local_input::{build_input_summary, input_summary_of};
use crate::models::{task_type_name, PublicTaskSummary, TaskRecord};
use crate::task_processor::{
    build_public_summary, public_summaries_are_short, public_summary_of, raw_output_of,
};
use crate::text::{
    chars_of, extend, is_white, lemma_trim_start_first, trim_end_by, contains, contains_seq, lemma_contains_in_part,
    lemma_prefix_before_marker, lemma_trim_is_part, lemma_trim_twice, decimal, decimal_vec,
    is_ascii_digit, lines, lines_vec, prefix_before, prefix_before_vec, slice, starts_at,
    starts_with, str_equal, string_of, string_views, take_chars, take_chars_vec, trim,
    trim_by, trim_by_vec, trim_start_by, trim_start_by_vec, trim_vec, views,
    word_key_points, word_key_points_vec, word_next_steps, word_next_steps_vec,
    word_summary, word_summary_vec, CharClass,
};

verus! {

// ----------------------------------------------------------------------------------------
// Texts derived from a task
// ----------------------------------------------------------------------------------------
/// The task's own public summary when it has a non-blank one (trimmed), otherwise one built
/// from its raw output.
pub open spec fn public_summary_text(task: TaskRecord) -> Seq<char> {
    match task.public_summary {
        Some(s) => if trim(s@).len() > 0 {
            trim(s@)
        } else {
            public_summary_of(value_or(task.raw_output, Seq::empty()))
        },
        None => public_summary_of(value_or(task.raw_output, Seq::empty())),
    }
}

/// The request as the user wrote it: the prompt without the appended list of URLs.
pub open spec fn display_prompt_of(prompt: Seq<char>) -> Seq<char> {
    trim(prefix_before(prompt, "\n\nReferenced URLs:\n"@))
}

/// The summary of the task's local input, if it has one.
pub open spec fn task_input_summary(task: TaskRecord) -> Option<Seq<char>> {
    match (task.input_source_path, task.input_payload) {
        (Some(p), Some(d)) => Some(input_summary_of(p@, d@)),
        (Some(p), None) => Some("Source Path: "@ + p@),
        _ => None,
    }
}

/// The stdout part of a stored raw output.
pub open spec fn stdout_part(raw: Seq<char>) -> Seq<char> {
    if starts_with(raw, "STDOUT\n"@) {
        trim(prefix_before(raw.skip("STDOUT\n"@.len() as int), "\n\nSTDERR\n"@))
    } else {
        trim(raw)
    }
}

/// The prompt shown on a task's page gives back the request as its author wrote it,
/// trimmed: the list of URLs appended for Codex is cut off again. This holds where the
/// request itself holds no `\n\nReferenced URLs:\n`, not even one that runs on into the
/// appended list.
pub proof fn display_prompt_gives_back_the_request(content: Seq<char>, urls: Seq<Seq<char>>)
    requires
        !contains(content + "\n\nReferenced URLs:"@, "\n\nReferenced URLs:\n"@),
    ensures
        display_prompt_of(prompt_from_message(content, urls)) == trim(content),
{
    reveal_strlit("\n\nReferenced URLs:");
    reveal_strlit("\n\nReferenced URLs:\n");
    let p = "\n\nReferenced URLs:\n"@;
    let pd = "\n\nReferenced URLs:"@;
    assert(pd =~= p.drop_last());
    let q = if urls.len() == 0 {
        Seq::<char>::empty()
    } else {
        p + joined_lines(urls)
    };
    assert(prompt_from_message(content, urls) =~= content + q);
    if q.len() > 0 {
        assert((p + joined_lines(urls)).take(p.len() as int) =~= p);
    }
    assert forall|i: int| 0 <= i < content.len() implies !#[trigger] starts_with(
        (content + q).skip(i),
        p,
    ) by {
        if starts_with((content + q).skip(i), p) {
            let w = content + pd;
            assert(w.skip(i).take(p.len() as int) =~= p) by {
                assert forall|k: int| 0 <= k < p.len() implies w.skip(i).take(p.len() as int)[k]
                    == p[k] by {
                    assert((content + q).skip(i).take(p.len() as int)[k] == p[k]);
                    if i + k >= content.len() {
                        assert(q[i + k - content.len()] == p[i + k - content.len()]);
                    }
                }
            }
            assert(starts_with(w.skip(i), p));
        }
    }
    lemma_prefix_before_marker(content, q, p);
}

pub fn build_public_summary_text(task: &TaskRecord) -> (s: String)
    ensures
        s@ == public_summary_text(*task),
{
    if let Some(summary) = &task.public_summary {
        let chars = chars_of(summary.as_str());
        let trimmed = trim_vec(&chars);
        if trimmed.len() > 0 {
            return string_of(&trimmed);
        }
    }
    proof {
        reveal_strlit("");
    }
    match &task.raw_output {
        Some(raw) => build_public_summary(raw.as_str()),
        None => build_public_summary(""),
    }
}

pub fn display_prompt(task: &TaskRecord) -> (s: String)
    ensures
        s@ == display_prompt_of(task.prompt@),
{
    let prompt = chars_of(task.prompt.as_str());
    let marker = chars_of("\n\nReferenced URLs:\n");
    let before = prefix_before_vec(&prompt, &marker);
    let trimmed = trim_vec(&before);
    string_of(&trimmed)
}

pub fn build_task_input_summary(task: &TaskRecord) -> (s: Option<String>)
    ensures
        match task_input_summary(*task) {
            Some(t) => s is Some && s->0@ == t,
            None => s is None,
        },
{
    match (&task.input_source_path, &task.input_payload) {
        (Some(source_path), Some(payload)) => Some(
            build_input_summary(source_path.as_str(), payload.as_str()),
        ),
        (Some(source_path), None) => {
            let mut s = String::from_str("Source Path: ");
            s.append(source_path.as_str());
            Some(s)
        },
        _ => None,
    }
}

/// The stdout part of a stored raw output.
pub fn extract_stdout(raw: &Vec<char>) -> (r: Vec<char>)
    ensures
        r@ == stdout_part(raw@),
{
    proof {
        reveal_strlit("STDOUT\n");
    }
    let head = chars_of("STDOUT\n");
    if starts_at(raw, &head, 0) {
        assert(raw@.skip(0) =~= raw@);
        let rest = slice(raw, head.len(), raw.len());
        assert(rest@ =~= raw@.skip("STDOUT\n"@.len() as int));
        let marker = chars_of("\n\nSTDERR\n");
        let before = prefix_before_vec(&rest, &marker);
        trim_vec(&before)
    } else {
        assert(raw@.skip(0) =~= raw@);
        trim_vec(raw)
    }
}

/// The stdout part read back from a stored raw output is the run's stdout, trimmed, where
/// the stdout holds no `STDERR` and does not itself begin with the `STDOUT` heading.
pub proof fn stored_output_gives_back_stdout(stdout: Seq<char>, stderr: Seq<char>)
    requires
        !contains(stdout, "STDERR"@),
        !starts_with(stdout, "STDOUT\n"@),
    ensures
        stdout_part(raw_output_of(stdout, stderr)) == trim(stdout),
{
    if trim(stderr).len() > 0 {
        reveal_strlit("STDOUT\n");
        reveal_strlit("\n\nSTDERR\n");
        reveal_strlit("STDERR");
        let h = "STDOUT\n"@;
        let m = "\n\nSTDERR\n"@;
        let a = trim(stdout);
        let e = trim(stderr);
        let q = m + e;
        let raw = h + a + m + e;
        assert(raw == raw_output_of(stdout, stderr));
        assert(raw.take(h.len() as int) =~= h);
        assert(raw.skip(h.len() as int) =~= a + q);
        assert(q.take(m.len() as int) =~= m);
        let start = lemma_trim_is_part(stdout, CharClass::Whitespace);
        assert forall|i: int| 0 <= i < a.len() implies !#[trigger] starts_with((a + q).skip(i), m) by {
            if starts_with((a + q).skip(i), m) {
                let w = (a + q).skip(i);
                assert(w.take(9)[2] == m[2]);
                if i + 8 <= a.len() {
                    assert(a.skip(i + 2).take(6) =~= "STDERR"@) by {
                        assert forall|j: int| 0 <= j < 6 implies a.skip(i + 2).take(6)[j]
                            == "STDERR"@[j] by {
                            assert(w.take(9)[j + 2] == m[j + 2]);
                        }
                    }
                    assert(starts_with(a.skip(i + 2), "STDERR"@));
                    assert(contains(a, "STDERR"@));
                    lemma_contains_in_part(stdout, start, start + a.len(), "STDERR"@);
                } else {
                    let k = a.len() - i;
                    assert(w.take(9)[k] == m[k]);
                    assert(w[k] == q[0]);
                    if k == 1 {
                        assert(w.take(9)[2] == m[2]);
                        assert(w[2] == q[1]);
                    }
                }
            }
        }
        lemma_prefix_before_marker(a, q, m);
        lemma_trim_twice(stdout, CharClass::Whitespace);
    }
}

/// Cuts `value` to its first `max_chars` characters.
pub fn truncate(value: &str, max_chars: usize) -> (s: String)
    ensures
        s@ == take_chars(value@, max_chars as int),
{
    let chars = chars_of(value);
    let cut = take_chars_vec(&chars, max_chars);
    string_of(&cut)
}

// ----------------------------------------------------------------------------------------
// Report sections
// ----------------------------------------------------------------------------------------
/// A line that may be a heading: after leading whitespace it starts with `#`, `*` or a digit.
pub open spec fn looks_like_heading(v: Seq<char>) -> bool {
    let t = trim_start_by(v, CharClass::Whitespace);
    t.len() > 0 && (t[0] == '#' || t[0] == '*' || is_ascii_digit(t[0]))
}

/// A heading's title: without stars around it, a leading `#`, or a numbering of digits,
/// `.`, `)`, spaces and tabs.
pub open spec fn section_heading(v: Seq<char>) -> Seq<char> {
    let a = trim_by(trim(v), CharClass::Exactly('*'));
    let b = trim(trim_start_by(a, CharClass::Exactly('#')));
    let c = trim(trim_start_by(b, CharClass::HeadingIndex));
    trim(trim_by(c, CharClass::Exactly('*')))
}

pub open spec fn heads_summary(v: Seq<char>) -> bool {
    looks_like_heading(v) && contains(section_heading(v), word_summary())
}

pub open spec fn heads_key_points(v: Seq<char>) -> bool {
    looks_like_heading(v) && contains(section_heading(v), word_key_points())
}

pub open spec fn heads_next_steps(v: Seq<char>) -> bool {
    looks_like_heading(v) && contains(section_heading(v), word_next_steps())
}

/// A list item without its bullet: leading `-`, then `・`, then `*` characters, then
/// surrounding whitespace.
pub open spec fn clean_item(v: Seq<char>) -> Seq<char> {
    trim(
        trim_start_by(
            trim_start_by(
                trim_start_by(v, CharClass::Exactly('-')),
                CharClass::Exactly('\u{30fb}'),
            ),
            CharClass::Exactly('*'),
        ),
    )
}

/// The section of a report that the lines being read belong to.
#[derive(Clone, Copy, PartialEq, Eq, Structural)]
pub enum Section {
    Summary,
    KeyPoints,
    NextSteps,
}

/// A report as far as it has been read.
pub struct ReportDraft {
    pub summary: Seq<char>,
    pub key_points: Seq<Seq<char>>,
    pub next_steps: Seq<Seq<char>>,
    pub section: Option<Section>,
}

/// Reading one more line of a report: blank lines are skipped, a heading switches the
/// section, any other line is added to the current section (summary lines joined by
/// newlines, list lines cleaned of their bullets); lines before any heading are dropped.
pub open spec fn report_step(d: ReportDraft, line: Seq<char>) -> ReportDraft {
    let t = trim(line);
    if t.len() == 0 {
        d
    } else if heads_summary(t) {
        ReportDraft { section: Some(Section::Summary), ..d }
    } else if heads_key_points(t) {
        ReportDraft { section: Some(Section::KeyPoints), ..d }
    } else if heads_next_steps(t) {
        ReportDraft { section: Some(Section::NextSteps), ..d }
    } else {
        match d.section {
            Some(Section::Summary) => ReportDraft {
                summary: if d.summary.len() == 0 {
                    t
                } else {
                    d.summary + seq!['\n'] + t
                },
                ..d
            },
            Some(Section::KeyPoints) => ReportDraft {
                key_points: d.key_points.push(clean_item(t)),
                ..d
            },
            Some(Section::NextSteps) => ReportDraft {
                next_steps: d.next_steps.push(clean_item(t)),
                ..d
            },
            None => d,
        }
    }
}

pub open spec fn empty_draft() -> ReportDraft {
    ReportDraft {
        summary: Seq::empty(),
        key_points: Seq::empty(),
        next_steps: Seq::empty(),
        section: None,
    }
}

/// The report after reading the lines in order.
pub open spec fn report_fold(ls: Seq<Seq<char>>) -> ReportDraft
    decreases ls.len(),
{
    if ls.len() == 0 {
        empty_draft()
    } else {
        report_step(report_fold(ls.drop_last()), ls.last())
    }
}

/// The items that are not empty, in order.
pub open spec fn non_empty_items(s: Seq<Seq<char>>) -> Seq<Seq<char>>
    decreases s.len(),
{
    if s.len() == 0 {
        s
    } else if s.last().len() > 0 {
        non_empty_items(s.drop_last()).push(s.last())
    } else {
        non_empty_items(s.drop_last())
    }
}

/// The sections of a report.
#[derive(Debug, Default)]
pub struct ReportSections {
    pub summary: String,
    pub key_points: Vec<String>,
    pub next_steps: Vec<String>,
}

/// The sections read from a task's output. A report with no summary section falls back to
/// the task's public summary text; where the output is blank, that is all there is.
pub open spec fn report_of(task: TaskRecord) -> (Seq<char>, Seq<Seq<char>>, Seq<Seq<char>>) {
    let stdout = stdout_part(value_or(task.raw_output, Seq::empty()));
    if trim(stdout).len() == 0 {
        (public_summary_text(task), Seq::empty(), Seq::empty())
    } else {
        let d = report_fold(lines(stdout));
        (
            if d.summary.len() == 0 {
                public_summary_text(task)
            } else {
                d.summary
            },
            non_empty_items(d.key_points),
            non_empty_items(d.next_steps),
        )
    }
}

proof fn lemma_kept_items_are_non_empty(s: Seq<Seq<char>>)
    ensures
        forall|i: int| 0 <= i < non_empty_items(s).len() ==> #[trigger] non_empty_items(s)[i].len() > 0,
    decreases s.len(),
{
    if s.len() > 0 {
        lemma_kept_items_are_non_empty(s.drop_last());
        let before = non_empty_items(s.drop_last());
        if s.last().len() > 0 {
            assert forall|i: int| 0 <= i < before.push(s.last()).len() implies #[trigger] before.push(
                s.last(),
            )[i].len() > 0 by {
                if i < before.len() {
                    assert(before[i].len() > 0);
                }
            }
        }
    }
}

/// Every report read from a task has a summary, and none of its key points or next steps
/// is empty.
pub proof fn reports_have_summaries(task: TaskRecord)
    ensures
        report_of(task).0.len() > 0,
        forall|i: int| 0 <= i < report_of(task).1.len() ==> #[trigger] report_of(task).1[i].len() > 0,
        forall|i: int| 0 <= i < report_of(task).2.len() ==> #[trigger] report_of(task).2[i].len() > 0,
{
    public_summaries_are_short(value_or(task.raw_output, Seq::empty()));
    let stdout = stdout_part(value_or(task.raw_output, Seq::empty()));
    let d = report_fold(lines(stdout));
    lemma_kept_items_are_non_empty(d.key_points);
    lemma_kept_items_are_non_empty(d.next_steps);
}

/// The bullets that list items may begin with: `-`, `・` and `*`.
pub open spec fn is_bullet(c: char) -> bool {
    c == '-' || c == '\u{30fb}' || c == '*'
}

/// An item text: not empty, not beginning with a bullet, and without whitespace at either
/// end.
pub open spec fn is_item_text(x: Seq<char>) -> bool {
    x.len() > 0 && !is_bullet(x[0]) && !is_white(x[0]) && !is_white(x.last())
}

/// A list line is read as its text without the bullet: `- x`, `・x` and `* x` all give
/// the item `x`.
pub proof fn bullets_are_removed_from_items(b: char, x: Seq<char>)
    requires
        is_bullet(b),
        is_item_text(x),
    ensures
        clean_item(seq![b] + x) == x,
        clean_item(seq![b, ' '] + x) == x,
        clean_item(x) == x,
{
    let w = CharClass::Whitespace;
    assert(!is_white(b));
    lemma_trim_start_first(x, w);
    assert(trim_end_by(x, w) == x);
    assert(trim(x) == x);
    lemma_item_text_has_no_bullet(x);
    let s1 = seq![b] + x;
    assert(s1.drop_first() =~= x);
    let s2 = seq![b, ' '] + x;
    assert(s2.drop_first() =~= seq![' '] + x);
    let sp = seq![' '] + x;
    assert(sp.drop_first() =~= x);
    lemma_trim_start_first(sp, CharClass::Exactly('-'));
    lemma_trim_start_first(sp, CharClass::Exactly('\u{30fb}'));
    lemma_trim_start_first(sp, CharClass::Exactly('*'));
    lemma_trim_start_first(sp, w);
    assert(trim_start_by(sp, w) == trim_start_by(x, w));
    assert(trim(sp) == trim_end_by(trim_start_by(x, w), w));
    if b == '-' {
        assert(trim_start_by(s1, CharClass::Exactly('-')) == trim_start_by(x, CharClass::Exactly('-')));
        assert(trim_start_by(s2, CharClass::Exactly('-')) == sp);
    } else if b == '\u{30fb}' {
        lemma_trim_start_first(s1, CharClass::Exactly('-'));
        lemma_trim_start_first(s2, CharClass::Exactly('-'));
        assert(trim_start_by(s1, CharClass::Exactly('\u{30fb}')) == trim_start_by(
            x,
            CharClass::Exactly('\u{30fb}'),
        ));
        assert(trim_start_by(s2, CharClass::Exactly('\u{30fb}')) == sp);
    } else {
        lemma_trim_start_first(s1, CharClass::Exactly('-'));
        lemma_trim_start_first(s2, CharClass::Exactly('-'));
        lemma_trim_start_first(s1, CharClass::Exactly('\u{30fb}'));
        lemma_trim_start_first(s2, CharClass::Exactly('\u{30fb}'));
        assert(trim_start_by(s1, CharClass::Exactly('*')) == trim_start_by(x, CharClass::Exactly('*')));
        assert(trim_start_by(s2, CharClass::Exactly('*')) == sp);
    }
}

proof fn lemma_item_text_has_no_bullet(x: Seq<char>)
    requires
        is_item_text(x),
    ensures
        trim_start_by(x, CharClass::Exactly('-')) == x,
        trim_start_by(x, CharClass::Exactly('\u{30fb}')) == x,
        trim_start_by(x, CharClass::Exactly('*')) == x,
{
    lemma_trim_start_first(x, CharClass::Exactly('-'));
    lemma_trim_start_first(x, CharClass::Exactly('\u{30fb}'));
    lemma_trim_start_first(x, CharClass::Exactly('*'));
}

/// Under the key points or the next steps, a line `・x` adds the item `x` to that list and
/// leaves everything else of the report as it was.
pub proof fn bulleted_lines_add_their_text(d: ReportDraft, x: Seq<char>)
    requires
        is_item_text(x),
        d.section == Some(Section::KeyPoints) || d.section == Some(Section::NextSteps),
    ensures
        d.section == Some(Section::KeyPoints) ==> report_step(d, seq!['\u{30fb}'] + x) == (
        ReportDraft { key_points: d.key_points.push(x), ..d }),
        d.section == Some(Section::NextSteps) ==> report_step(d, seq!['\u{30fb}'] + x) == (
        ReportDraft { next_steps: d.next_steps.push(x), ..d }),
{
    let w = CharClass::Whitespace;
    let line = seq!['\u{30fb}'] + x;
    assert(!is_white('\u{30fb}'));
    lemma_trim_start_first(line, w);
    assert(line.last() == x.last());
    assert(trim_end_by(line, w) == line);
    assert(trim(line) == line);
    assert(!looks_like_heading(line));
    bullets_are_removed_from_items('\u{30fb}', x);
}

pub open spec fn sections_view(r: ReportSections) -> (Seq<char>, Seq<Seq<char>>, Seq<Seq<char>>) {
    (r.summary@, string_views(r.key_points@), string_views(r.next_steps@))
}

fn looks_like_section_heading(v: &Vec<char>) -> (b: bool)
    ensures
        b == looks_like_heading(v@),
{
    let t = trim_start_by_vec(v, CharClass::Whitespace);
    t.len() > 0 && (t[0] == '#' || t[0] == '*' || ('0' <= t[0] && t[0] <= '9'))
}

fn normalized_section_heading(v: &Vec<char>) -> (r: Vec<char>)
    ensures
        r@ == section_heading(v@),
{
    let a0 = trim_vec(v);
    let a = trim_by_vec(&a0, CharClass::Exactly('*'));
    let b0 = trim_start_by_vec(&a, CharClass::Exactly('#'));
    let b = trim_vec(&b0);
    let c0 = trim_start_by_vec(&b, CharClass::HeadingIndex);
    let c = trim_vec(&c0);
    let d0 = trim_by_vec(&c, CharClass::Exactly('*'));
    trim_vec(&d0)
}

fn is_heading_with(v: &Vec<char>, word: &Vec<char>) -> (b: bool)
    ensures
        b == (looks_like_heading(v@) && contains(section_heading(v@), word@)),
{
    if !looks_like_section_heading(v) {
        return false;
    }
    let n = normalized_section_heading(v);
    contains_seq(&n, word)
}

/// Whether the line is the heading of the summary section.
pub fn is_summary_heading(v: &Vec<char>) -> (b: bool)
    ensures
        b == heads_summary(v@),
{
    is_heading_with(v, &word_summary_vec())
}

/// Whether the line is the heading of the key points.
pub fn is_key_points_heading(v: &Vec<char>) -> (b: bool)
    ensures
        b == heads_key_points(v@),
{
    is_heading_with(v, &word_key_points_vec())
}

/// Whether the line is the heading of the next steps.
pub fn is_next_steps_heading(v: &Vec<char>) -> (b: bool)
    ensures
        b == heads_next_steps(v@),
{
    is_heading_with(v, &word_next_steps_vec())
}

fn clean_list_item(v: &Vec<char>) -> (r: Vec<char>)
    ensures
        r@ == clean_item(v@),
{
    let a = trim_start_by_vec(v, CharClass::Exactly('-'));
    let b = trim_start_by_vec(&a, CharClass::Exactly('\u{30fb}'));
    let c = trim_start_by_vec(&b, CharClass::Exactly('*'));
    trim_vec(&c)
}

fn keep_non_empty(items: &Vec<Vec<char>>) -> (r: Vec<String>)
    ensures
        string_views(r@) == non_empty_items(views(items@)),
{
    let ghost iv = views(items@);
    let mut r: Vec<String> = Vec::new();
    let mut i: usize = 0;
    assert(iv.take(0) =~= Seq::<Seq<char>>::empty());
    while i < items.len()
        invariant
            i <= items.len(),
            iv == views(items@),
            string_views(r@) == non_empty_items(iv.take(i as int)),
        decreases items.len() - i,
    {
        assert(iv.take(i + 1).drop_last() =~= iv.take(i as int));
        assert(iv.take(i + 1).last() == items@[i as int]@);
        if items[i].len() > 0 {
            let ghost old = string_views(r@);
            r.push(string_of(&items[i]));
            assert(string_views(r@) =~= old.push(items@[i as int]@));
        }
        i = i + 1;
    }
    assert(iv.take(items.len() as int) =~= iv);
    r
}

/// Reads the summary, key points and next steps out of a task's Codex output.
pub fn parse_report_sections(task: &TaskRecord) -> (r: ReportSections)
    ensures
        sections_view(r) == report_of(*task),
{
    proof {
        reveal_strlit("");
    }
    let raw = match &task.raw_output {
        Some(raw) => chars_of(raw.as_str()),
        None => Vec::new(),
    };
    let stdout = extract_stdout(&raw);
    let stdout_trimmed = trim_vec(&stdout);
    if stdout_trimmed.len() == 0 {
        let r = ReportSections {
            summary: build_public_summary_text(task),
            key_points: Vec::new(),
            next_steps: Vec::new(),
        };
        assert(string_views(r.key_points@) =~= Seq::<Seq<char>>::empty());
        assert(string_views(r.next_steps@) =~= Seq::<Seq<char>>::empty());
        return r;
    }
    let ls = lines_vec(&stdout);
    let ghost lv = views(ls@);
    let mut summary: Vec<char> = Vec::new();
    let mut key_points: Vec<Vec<char>> = Vec::new();
    let mut next_steps: Vec<Vec<char>> = Vec::new();
    let mut section: Option<Section> = None;
    let mut i: usize = 0;
    assert(lv.take(0) =~= Seq::<Seq<char>>::empty());
    assert(views(key_points@) =~= Seq::<Seq<char>>::empty());
    assert(views(next_steps@) =~= Seq::<Seq<char>>::empty());
    while i < ls.len()
        invariant
            i <= ls.len(),
            lv == views(ls@),
            report_fold(lv.take(i as int)) == (ReportDraft {
                summary: summary@,
                key_points: views(key_points@),
                next_steps: views(next_steps@),
                section,
            }),
        decreases ls.len() - i,
    {
        assert(lv.take(i + 1).drop_last() =~= lv.take(i as int));
        assert(lv.take(i + 1).last() == ls@[i as int]@);
        let ghost d = report_fold(lv.take(i as int));
        assert(report_fold(lv.take(i + 1)) == report_step(d, ls@[i as int]@));
        let t = trim_vec(&ls[i]);
        if t.len() == 0 {
        } else if is_summary_heading(&t) {
            section = Some(Section::Summary);
        } else if is_key_points_heading(&t) {
            section = Some(Section::KeyPoints);
        } else if is_next_steps_heading(&t) {
            section = Some(Section::NextSteps);
        } else {
            match section {
                Some(Section::Summary) => {
                    let ghost s_old = summary@;
                    if summary.len() > 0 {
                        summary.push('\n');
                    }
                    extend(&mut summary, &t);
                    assert(s_old.len() > 0 ==> summary@ =~= s_old + seq!['\n'] + t@);
                    assert(s_old.len() == 0 ==> summary@ =~= t@);
                },
                Some(Section::KeyPoints) => {
                    let ghost k0 = views(key_points@);
                    let item = clean_list_item(&t);
                    key_points.push(item);
                    assert(views(key_points@) =~= k0.push(clean_item(t@)));
                },
                Some(Section::NextSteps) => {
                    let ghost n0 = views(next_steps@);
                    let item = clean_list_item(&t);
                    next_steps.push(item);
                    assert(views(next_steps@) =~= n0.push(clean_item(t@)));
                },
                None => {},
            }
        }
        i = i + 1;
    }
    assert(lv.take(ls.len() as int) =~= lv);
    let summary_text = if summary.len() == 0 {
        build_public_summary_text(task)
    } else {
        string_of(&summary)
    };
    ReportSections {
        summary: summary_text,
        key_points: keep_non_empty(&key_points),
        next_steps: keep_non_empty(&next_steps),
    }
}

} // verus!

verus! {

// ----------------------------------------------------------------------------------------
// The page of a task
// ----------------------------------------------------------------------------------------
/// "依頼内容" (the request).
pub open spec fn word_request() -> Seq<char> {
    seq!['\u{4f9d}', '\u{983c}', '\u{5185}', '\u{5bb9}']
}

/// "入力データ概要" (input data overview).
pub open spec fn word_input_data() -> Seq<char> {
    seq!['\u{5165}', '\u{529b}', '\u{30c7}', '\u{30fc}', '\u{30bf}', '\u{6982}', '\u{8981}']
}

fn word_request_vec() -> (v: Vec<char>)
    ensures
        v@ == word_request(),
{
    let v = vec!['\u{4f9d}', '\u{983c}', '\u{5185}', '\u{5bb9}'];
    assert(v@ =~= word_request());
    v
}

fn word_input_data_vec() -> (v: Vec<char>)
    ensures
        v@ == word_input_data(),
{
    let v = vec!['\u{5165}', '\u{529b}', '\u{30c7}', '\u{30fc}', '\u{30bf}', '\u{6982}', '\u{8981}'];
    assert(v@ =~= word_input_data());
    v
}

/// The kinds of block that a task page's body holds.
#[derive(Clone, Copy, Debug, PartialEq, Eq, Structural)]
pub enum BlockKind {
    Heading,
    Paragraph,
    BulletedListItem,
}

/// One block of a task page's body, with its text already cut to Notion's limits.
#[derive(Clone, Debug)]
pub struct PageBlock {
    pub kind: BlockKind,
    pub text: String,
}

pub open spec fn block_view(b: PageBlock) -> (BlockKind, Seq<char>) {
    (b.kind, b.text@)
}

pub open spec fn blocks_view(bs: Seq<PageBlock>) -> Seq<(BlockKind, Seq<char>)> {
    bs.map_values(|b: PageBlock| block_view(b))
}

/// A heading holds at most 200 characters.
pub open spec fn heading_of(t: Seq<char>) -> (BlockKind, Seq<char>) {
    (BlockKind::Heading, take_chars(t, 200))
}

/// A paragraph holds at most 1800 characters.
pub open spec fn paragraph_of(t: Seq<char>) -> (BlockKind, Seq<char>) {
    (BlockKind::Paragraph, take_chars(t, 1800))
}

/// A list item holds at most 1800 characters.
pub open spec fn bullet_of(t: Seq<char>) -> (BlockKind, Seq<char>) {
    (BlockKind::BulletedListItem, take_chars(t, 1800))
}

pub open spec fn bullets_of(items: Seq<Seq<char>>) -> Seq<(BlockKind, Seq<char>)> {
    items.map_values(|p: Seq<char>| bullet_of(p))
}

/// The body of a task's page: the summary (the report's, or the task's public summary text),
/// the key points and next steps where there are any, the request, and the input overview
/// where the task has local input.
pub open spec fn page_blocks(
    task: TaskRecord,
    report: (Seq<char>, Seq<Seq<char>>, Seq<Seq<char>>),
) -> Seq<(BlockKind, Seq<char>)> {
    let summary_body = if report.0.len() == 0 {
        public_summary_text(task)
    } else {
        report.0
    };
    let a = seq![heading_of(word_summary()), paragraph_of(summary_body)];
    let b = if report.1.len() > 0 {
        a.push(heading_of(word_key_points())) + bullets_of(report.1)
    } else {
        a
    };
    let c = if report.2.len() > 0 {
        b.push(heading_of(word_next_steps())) + bullets_of(report.2)
    } else {
        b
    };
    let d = c.push(heading_of(word_request())).push(
        paragraph_of(take_chars(display_prompt_of(task.prompt@), 1800)),
    );
    match task_input_summary(task) {
        Some(s) => d.push(heading_of(word_input_data())).push(paragraph_of(s)),
        None => d,
    }
}

/// A block within Notion's limits: 200 characters for a heading, 1800 for the others.
pub open spec fn block_fits(b: (BlockKind, Seq<char>)) -> bool {
    b.1.len() <= if b.0 == BlockKind::Heading {
        200nat
    } else {
        1800nat
    }
}

pub open spec fn all_fit(bs: Seq<(BlockKind, Seq<char>)>) -> bool {
    forall|i: int| 0 <= i < bs.len() ==> #[trigger] block_fits(bs[i])
}

proof fn lemma_concat_fits(a: Seq<(BlockKind, Seq<char>)>, b: Seq<(BlockKind, Seq<char>)>)
    requires
        all_fit(a),
        all_fit(b),
    ensures
        all_fit(a + b),
{
    assert forall|i: int| 0 <= i < (a + b).len() implies #[trigger] block_fits((a + b)[i]) by {
        if i < a.len() {
            assert(block_fits(a[i]));
        } else {
            assert(block_fits(b[i - a.len()]));
        }
    }
}

/// Every block of a task page keeps within Notion's limits, whatever the task and report.
pub proof fn page_blocks_fit_notion_limits(
    task: TaskRecord,
    report: (Seq<char>, Seq<Seq<char>>, Seq<Seq<char>>),
)
    ensures
        all_fit(page_blocks(task, report)),
{
    let summary_body = if report.0.len() == 0 {
        public_summary_text(task)
    } else {
        report.0
    };
    let a = seq![heading_of(word_summary()), paragraph_of(summary_body)];
    assert(all_fit(a)) by {
        assert(block_fits(a[0]) && block_fits(a[1]));
    }
    assert(all_fit(bullets_of(report.1)));
    assert(all_fit(bullets_of(report.2)));
    let h1 = seq![heading_of(word_key_points())];
    let h2 = seq![heading_of(word_next_steps())];
    assert(all_fit(h1)) by {
        assert(block_fits(h1[0]));
    }
    assert(all_fit(h2)) by {
        assert(block_fits(h2[0]));
    }
    lemma_concat_fits(a, h1);
    assert(a.push(heading_of(word_key_points())) =~= a + h1);
    lemma_concat_fits(a + h1, bullets_of(report.1));
    let b = if report.1.len() > 0 {
        a.push(heading_of(word_key_points())) + bullets_of(report.1)
    } else {
        a
    };
    lemma_concat_fits(b, h2);
    assert(b.push(heading_of(word_next_steps())) =~= b + h2);
    lemma_concat_fits(b + h2, bullets_of(report.2));
    let c = if report.2.len() > 0 {
        b.push(heading_of(word_next_steps())) + bullets_of(report.2)
    } else {
        b
    };
    let tail = seq![
        heading_of(word_request()),
        paragraph_of(take_chars(display_prompt_of(task.prompt@), 1800)),
    ];
    assert(all_fit(tail)) by {
        assert(block_fits(tail[0]) && block_fits(tail[1]));
    }
    lemma_concat_fits(c, tail);
    let d = c.push(heading_of(word_request())).push(
        paragraph_of(take_chars(display_prompt_of(task.prompt@), 1800)),
    );
    assert(d =~= c + tail);
    match task_input_summary(task) {
        Some(s) => {
            let more = seq![heading_of(word_input_data()), paragraph_of(s)];
            assert(all_fit(more)) by {
                assert(block_fits(more[0]) && block_fits(more[1]));
            }
            lemma_concat_fits(d, more);
            assert(d.push(heading_of(word_input_data())).push(paragraph_of(s)) =~= d + more);
        },
        None => {},
    }
}

fn block(kind: BlockKind, text: &Vec<char>, max: usize) -> (b: PageBlock)
    ensures
        block_view(b) == (kind, take_chars(text@, max as int)),
{
    let cut = take_chars_vec(text, max);
    PageBlock { kind, text: string_of(&cut) }
}

fn push_block(blocks: &mut Vec<PageBlock>, kind: BlockKind, text: &Vec<char>, max: usize)
    ensures
        blocks_view(final(blocks)@) == blocks_view(old(blocks)@).push(
            (kind, take_chars(text@, max as int)),
        ),
{
    let ghost before = blocks_view(blocks@);
    let b = block(kind, text, max);
    blocks.push(b);
    assert(blocks_view(blocks@) =~= before.push((kind, take_chars(text@, max as int))));
}

fn push_bullets(blocks: &mut Vec<PageBlock>, items: &Vec<String>)
    ensures
        blocks_view(final(blocks)@) == blocks_view(old(blocks)@) + bullets_of(
            string_views(items@),
        ),
{
    let ghost before = blocks_view(blocks@);
    let ghost iv = string_views(items@);
    let mut i: usize = 0;
    while i < items.len()
        invariant
            i <= items.len(),
            iv == string_views(items@),
            blocks_view(blocks@) =~= before + bullets_of(iv.take(i as int)),
        decreases items.len() - i,
    {
        let text = chars_of(items[i].as_str());
        push_block(blocks, BlockKind::BulletedListItem, &text, 1800);
        assert(bullets_of(iv.take(i + 1)) =~= bullets_of(iv.take(i as int)).push(
            bullet_of(iv[i as int]),
        ));
        i = i + 1;
    }
    assert(iv.take(items.len() as int) =~= iv);
}

/// The blocks of a task page's body.
pub fn build_page_children(task: &TaskRecord, report: &ReportSections) -> (children: Vec<
    PageBlock,
>)
    ensures
        blocks_view(children@) == page_blocks(*task, sections_view(*report)),
{
    let mut children: Vec<PageBlock> = Vec::new();
    let summary = chars_of(report.summary.as_str());
    let summary_body = if summary.len() == 0 {
        let text = build_public_summary_text(task);
        chars_of(text.as_str())
    } else {
        summary
    };
    assert(blocks_view(children@) =~= Seq::<(BlockKind, Seq<char>)>::empty());
    push_block(&mut children, BlockKind::Heading, &word_summary_vec(), 200);
    push_block(&mut children, BlockKind::Paragraph, &summary_body, 1800);
    if report.key_points.len() > 0 {
        push_block(&mut children, BlockKind::Heading, &word_key_points_vec(), 200);
        push_bullets(&mut children, &report.key_points);
    }
    if report.next_steps.len() > 0 {
        push_block(&mut children, BlockKind::Heading, &word_next_steps_vec(), 200);
        push_bullets(&mut children, &report.next_steps);
    }
    push_block(&mut children, BlockKind::Heading, &word_request_vec(), 200);
    let shown = display_prompt(task);
    let shown_chars = chars_of(shown.as_str());
    let shown_cut = take_chars_vec(&shown_chars, 1800);
    push_block(&mut children, BlockKind::Paragraph, &shown_cut, 1800);
    match build_task_input_summary(task) {
        Some(input_summary) => {
            push_block(&mut children, BlockKind::Heading, &word_input_data_vec(), 200);
            let text = chars_of(input_summary.as_str());
            push_block(&mut children, BlockKind::Paragraph, &text, 1800);
        },
        None => {},
    }
    children
}

/// The properties of a task's page in the Notion database, with the texts cut to Notion's
/// limits.
#[derive(Clone, Debug)]
pub struct TaskPageProperties {
    pub task_id: String,
    pub title: String,
    pub status: String,
    pub task_type: String,
    pub publish: bool,
    pub public_summary: String,
    pub updated_at: String,
    pub completed_at: Option<String>,
    pub thread_id: String,
    pub public_url: String,
}

/// Where a published task can be read: `{base}/tasks/{id}`.
pub open spec fn public_task_url(base: Seq<char>, task_id: Seq<char>) -> Seq<char> {
    base + "/tasks/"@ + task_id
}

/// The properties written for a completed task.
pub open spec fn page_properties_ok(p: TaskPageProperties, task: TaskRecord, base: Seq<char>) -> bool {
    &&& p.task_id@ == take_chars(task.id@, 2000)
    &&& p.title@ == take_chars(task.title@, 200)
    &&& p.status@ == "Completed"@
    &&& p.task_type@ == task_type_name(task.task_type)
    &&& p.publish
    &&& p.public_summary@ == take_chars(take_chars(public_summary_text(task), 1800), 2000)
    &&& p.updated_at == task.updated_at
    &&& p.completed_at == task.completed_at
    &&& p.thread_id@ == take_chars(decimal(task.thread_id as nat), 2000)
    &&& p.public_url@ == take_chars(public_task_url(base, task.id@), 2000)
}

fn cut(v: &Vec<char>, max: usize) -> (s: String)
    ensures
        s@ == take_chars(v@, max as int),
{
    let c = take_chars_vec(v, max);
    string_of(&c)
}

pub fn task_page_properties(task: &TaskRecord, public_base_url: &str) -> (p: TaskPageProperties)
    ensures
        page_properties_ok(p, *task, public_base_url@),
{
    let id = chars_of(task.id.as_str());
    let title = chars_of(task.title.as_str());
    let summary_text = build_public_summary_text(task);
    let summary_chars = chars_of(summary_text.as_str());
    let summary_short = take_chars_vec(&summary_chars, 1800);
    let thread = decimal_vec(task.thread_id);
    let mut url = String::from_str(public_base_url);
    url.append("/tasks/");
    url.append(task.id.as_str());
    let url_chars = chars_of(url.as_str());
    TaskPageProperties {
        task_id: cut(&id, 2000),
        title: cut(&title, 200),
        status: String::from_str("Completed"),
        task_type: String::from_str(task.task_type.as_str()),
        publish: true,
        public_summary: cut(&summary_short, 2000),
        updated_at: task.updated_at.clone(),
        completed_at: match &task.completed_at {
            Some(c) => Some(c.clone()),
            None => None,
        },
        thread_id: cut(&thread, 2000),
        public_url: cut(&url_chars, 2000),
    }
}

} // verus!

verus! {

// ----------------------------------------------------------------------------------------
// Settings and the page to create
// ----------------------------------------------------------------------------------------
/// The Notion settings of the program.
#[derive(Clone, Debug)]
pub struct NotionSettings {
    pub token: Option<String>,
    pub database_id: Option<String>,
    pub public_base_url: String,
}

/// A page to create in the task database.
#[derive(Clone, Debug)]
pub struct TaskPage {
    pub database_id: String,
    pub properties: TaskPageProperties,
    pub children: Vec<PageBlock>,
}

impl NotionSettings {
    pub fn from_config(config: &AppConfig) -> (s: NotionSettings)
        ensures
            s.token == config.notion_token,
            s.database_id == config.notion_task_database_id,
            s.public_base_url == config.public_base_url,
    {
        NotionSettings {
            token: match &config.notion_token {
                Some(t) => Some(t.clone()),
                None => None,
            },
            database_id: match &config.notion_task_database_id {
                Some(d) => Some(d.clone()),
                None => None,
            },
            public_base_url: config.public_base_url.clone(),
        }
    }

    /// Notion is used only where both a token and a database are configured.
    pub fn is_enabled(&self) -> (b: bool)
        ensures
            b == (self.token is Some && self.database_id is Some),
    {
        self.token.is_some() && self.database_id.is_some()
    }

    /// The value of the `Authorization` header: `Bearer` and the token.
    pub fn authorization(&self) -> (h: Option<String>)
        ensures
            match self.token {
                Some(t) => h is Some && h->0@ == "Bearer "@ + t@,
                None => h is None,
            },
    {
        match &self.token {
            Some(t) => {
                let mut h = String::from_str("Bearer ");
                h.append(t.as_str());
                Some(h)
            },
            None => None,
        }
    }

    /// The page that publishing a completed task creates; none where Notion is not enabled.
    pub fn build_task_page(&self, task: &TaskRecord) -> (p: Option<TaskPage>)
        ensures
            p is Some <==> (self.token is Some && self.database_id is Some),
            p is Some ==> {
                let page = p->0;
                &&& page.database_id == self.database_id->0
                &&& page_properties_ok(page.properties, *task, self.public_base_url@)
                &&& blocks_view(page.children@) == page_blocks(*task, report_of(*task))
            },
    {
        if !self.is_enabled() {
            return None;
        }
        let database_id = match &self.database_id {
            Some(d) => d.clone(),
            None => String::new(),
        };
        let report = parse_report_sections(task);
        let children = build_page_children(task, &report);
        Some(TaskPage {
            database_id,
            properties: task_page_properties(task, self.public_base_url.as_str()),
            children,
        })
    }
}

/// A query of the task database: where it is sent, how many pages it asks for, the checkbox
/// property that must equal `filter_checkbox_equals`, and the date property the pages are
/// sorted by.
#[derive(Clone, Debug)]
pub struct NotionQuery {
    pub endpoint: String,
    pub page_size: usize,
    pub filter_property: String,
    pub filter_checkbox_equals: bool,
    pub sort_property: String,
    pub sort_descending: bool,
}

impl NotionSettings {
    /// The query behind the public feed: at most `limit` pages of the task database whose
    /// `Publish` checkbox is set, the most recently updated first; none where Notion is not
    /// configured.
    pub fn published_tasks_query(&self, limit: usize) -> (q: Option<NotionQuery>)
        ensures
            q is Some <==> (self.token is Some && self.database_id is Some),
            q is Some ==> {
                let x = q->0;
                &&& x.endpoint@ == "https://api.notion.com/v1/databases/"@ + self.database_id->0@
                    + "/query"@
                &&& x.page_size == limit
                &&& x.filter_property@ == "Publish"@
                &&& x.filter_checkbox_equals
                &&& x.sort_property@ == "Updated At"@
                &&& x.sort_descending
            },
    {
        if !self.is_enabled() {
            return None;
        }
        let mut endpoint = String::from_str("https://api.notion.com/v1/databases/");
        match &self.database_id {
            Some(d) => endpoint.append(d.as_str()),
            None => {},
        }
        endpoint.append("/query");
        Some(
            NotionQuery {
                endpoint,
                page_size: limit,
                filter_property: String::from_str("Publish"),
                filter_checkbox_equals: true,
                sort_property: String::from_str("Updated At"),
                sort_descending: true,
            },
        )
    }
}

/// Judges the HTTP status of a Notion call: 200..=299 is success; any other status is an
/// error that names the call, the status and the response body.
pub fn check_notion_status(operation: &str, code: u16, status: String, body: String) -> (r: Result<
    (),
    AgentError,
>)
    ensures
        r is Ok <==> 200 <= code <= 299,
        r is Err ==> match r {
            Err(AgentError::NotionStatus { operation: o, status: s, body: b }) => o@ == operation@
                && s == status && b == body,
            _ => false,
        },
{
    if 200 <= code && code <= 299 {
        Ok(())
    } else {
        Err(AgentError::NotionStatus { operation: String::from_str(operation), status, body })
    }
}

} // verus!

verus! {

// ----------------------------------------------------------------------------------------
// Reading Notion's answers
// ----------------------------------------------------------------------------------------
/// A page that Notion created.
#[derive(Clone, Debug)]
pub struct PublishedPage {
    pub id: String,
    pub url: String,
}

/// The text of a rich-text item: its `plain_text`, or else its `text.content`.
pub open spec fn item_text(item: JsonValue) -> Option<Seq<char>> {
    match as_text(field(item, "plain_text"@)) {
        Some(s) => Some(s),
        None => as_text(field_of(field(item, "text"@), "content"@)),
    }
}

/// The texts of the items, one after the other; items without text add nothing.
pub open spec fn joined_texts(items: Seq<JsonValue>) -> Seq<char>
    decreases items.len(),
{
    if items.len() == 0 {
        Seq::empty()
    } else {
        joined_texts(items.drop_last()) + match item_text(items.last()) {
            Some(s) => s,
            None => Seq::empty(),
        }
    }
}

/// The plain text of property `key`: its `rich_text` items, or else its `title` items,
/// joined; empty where it has neither.
pub open spec fn plain_text_of(props: JsonValue, key: Seq<char>) -> Seq<char> {
    let prop = field(props, key);
    match as_items(field_of(prop, "rich_text"@)) {
        Some(items) => joined_texts(items),
        None => match as_items(field_of(prop, "title"@)) {
            Some(items) => joined_texts(items),
            None => Seq::empty(),
        },
    }
}

/// The start of date property `key`.
pub open spec fn date_of(props: JsonValue, key: Seq<char>) -> Option<Seq<char>> {
    as_text(field_of(field_of(field(props, key), "date"@), "start"@))
}

pub type SummaryModel = (Seq<char>, Seq<char>, Seq<char>, Option<Seq<char>>, Seq<char>);

pub open spec fn summary_view(s: PublicTaskSummary) -> SummaryModel {
    (
        s.task_id@,
        s.title@,
        s.summary@,
        match s.completed_at {
            Some(c) => Some(c@),
            None => None,
        },
        s.updated_at@,
    )
}

pub open spec fn summaries_view(s: Seq<PublicTaskSummary>) -> Seq<SummaryModel> {
    s.map_values(|x: PublicTaskSummary| summary_view(x))
}

/// The public summary of a page of the task database; none for a page without a task id.
pub open spec fn summary_of_page(page: JsonValue) -> Option<SummaryModel> {
    let props = match field(page, "properties"@) {
        Some(p) => p,
        None => JsonValue::Null,
    };
    let id = plain_text_of(props, "Task ID"@);
    if id.len() == 0 {
        None
    } else {
        Some(
            (
                id,
                plain_text_of(props, "Title"@),
                plain_text_of(props, "Public Summary"@),
                date_of(props, "Completed At"@),
                match date_of(props, "Updated At"@) {
                    Some(d) => d,
                    None => Seq::empty(),
                },
            ),
        )
    }
}

pub open spec fn summaries_of_pages(pages: Seq<JsonValue>) -> Seq<SummaryModel>
    decreases pages.len(),
{
    if pages.len() == 0 {
        Seq::empty()
    } else {
        match summary_of_page(pages.last()) {
            Some(m) => summaries_of_pages(pages.drop_last()).push(m),
            None => summaries_of_pages(pages.drop_last()),
        }
    }
}

/// Property `key` of `props` holds, under `kind` (`rich_text` or `title`), a single item
/// whose plain text is `s`: the way a page's text properties are written.
pub open spec fn single_text(props: JsonValue, key: Seq<char>, kind: Seq<char>, s: Seq<char>) -> bool {
    match field(props, key) {
        Some(p) => match as_items(field(p, kind)) {
            Some(items) => items.len() == 1 && as_text(field(items[0], "plain_text"@)) == Some(s),
            None => false,
        },
        None => false,
    }
}

proof fn lemma_one_item(items: Seq<JsonValue>, s: Seq<char>)
    requires
        items.len() == 1,
        as_text(field(items[0], "plain_text"@)) == Some(s),
    ensures
        joined_texts(items) == s,
{
    assert(items.drop_last() =~= Seq::<JsonValue>::empty());
    assert(joined_texts(items.drop_last()) == Seq::<char>::empty());
    assert(Seq::<char>::empty() + s =~= s);
}

/// A result page with a task id reads back as the task id, title and public summary that
/// its properties hold: `Task ID` and `Public Summary` as rich text, `Title` as a title.
/// So the feed shows, for each published task, the summary that was written for it.
pub proof fn published_page_reads_back(
    page: JsonValue,
    props: JsonValue,
    id: Seq<char>,
    title: Seq<char>,
    summary: Seq<char>,
)
    requires
        field(page, "properties"@) == Some(props),
        id.len() > 0,
        single_text(props, "Task ID"@, "rich_text"@, id),
        single_text(props, "Title"@, "title"@, title),
        field_of(field(props, "Title"@), "rich_text"@) is None,
        single_text(props, "Public Summary"@, "rich_text"@, summary),
    ensures
        summary_of_page(page) is Some,
        (summary_of_page(page)->0).0 == id,
        (summary_of_page(page)->0).1 == title,
        (summary_of_page(page)->0).2 == summary,
        summaries_of_pages(seq![page]) == seq![summary_of_page(page)->0],
{
    let pid = field(props, "Task ID"@)->0;
    lemma_one_item(as_items(field(pid, "rich_text"@))->0, id);
    let pt = field(props, "Title"@)->0;
    lemma_one_item(as_items(field(pt, "title"@))->0, title);
    let ps = field(props, "Public Summary"@)->0;
    lemma_one_item(as_items(field(ps, "rich_text"@))->0, summary);
    assert(plain_text_of(props, "Task ID"@) == id);
    assert(plain_text_of(props, "Title"@) == title);
    assert(plain_text_of(props, "Public Summary"@) == summary);
    assert(seq![page].drop_last() =~= Seq::<JsonValue>::empty());
    assert(seq![page].last() == page);
    assert(summaries_of_pages(seq![page].drop_last()) == Seq::<SummaryModel>::empty());
    assert(summaries_of_pages(seq![page]) == summaries_of_pages(seq![page].drop_last()).push(
        summary_of_page(page)->0,
    ));
    assert(Seq::<SummaryModel>::empty().push(summary_of_page(page)->0) =~= seq![
        summary_of_page(page)->0,
    ]);
}

fn item_text_exec(item: &JsonValue) -> (r: Option<String>)
    ensures
        match item_text(*item) {
            Some(s) => r is Some && r->0@ == s,
            None => r is None,
        },
{
    match text_of(get(item, "plain_text")) {
        Some(s) => Some(s),
        None => text_of(get_in(get(item, "text"), "content")),
    }
}

fn join_item_texts(items: &Vec<JsonValue>) -> (s: String)
    ensures
        s@ == joined_texts(items@),
{
    let mut s = String::new();
    let mut i: usize = 0;
    assert(items@.take(0) =~= Seq::<JsonValue>::empty());
    while i < items.len()
        invariant
            i <= items.len(),
            s@ == joined_texts(items@.take(i as int)),
        decreases items.len() - i,
    {
        assert(items@.take(i + 1).drop_last() =~= items@.take(i as int));
        assert(items@.take(i + 1).last() == items@[i as int]);
        match item_text_exec(&items[i]) {
            Some(t) => s.append(t.as_str()),
            None => {
                assert(s@ + Seq::<char>::empty() =~= s@);
            },
        }
        i = i + 1;
    }
    assert(items@.take(items.len() as int) =~= items@);
    s
}

/// The plain text of a property of a database page.
pub fn extract_plain_text(properties: &JsonValue, key: &str) -> (s: String)
    ensures
        s@ == plain_text_of(*properties, key@),
{
    let prop = get(properties, key);
    match get_in(prop, "rich_text") {
        Some(JsonValue::Array(items)) => join_item_texts(items),
        _ => match get_in(prop, "title") {
            Some(JsonValue::Array(items)) => join_item_texts(items),
            _ => String::new(),
        },
    }
}

/// The plain text of a title property.
pub fn extract_title(properties: &JsonValue, key: &str) -> (s: String)
    ensures
        s@ == plain_text_of(*properties, key@),
{
    extract_plain_text(properties, key)
}

/// The start of a date property of a database page.
pub fn extract_date(properties: &JsonValue, key: &str) -> (d: Option<String>)
    ensures
        match date_of(*properties, key@) {
            Some(t) => d is Some && d->0@ == t,
            None => d is None,
        },
{
    text_of(get_in(get_in(get(properties, key), "date"), "start"))
}

fn page_summary(page: &JsonValue) -> (r: Option<PublicTaskSummary>)
    ensures
        match summary_of_page(*page) {
            Some(m) => r is Some && summary_view(r->0) == m,
            None => r is None,
        },
{
    let empty = JsonValue::Null;
    let properties = match get(page, "properties") {
        Some(p) => p,
        None => &empty,
    };
    let task_id = extract_plain_text(properties, "Task ID");
    if task_id.as_str().unicode_len() == 0 {
        return None;
    }
    Some(
        PublicTaskSummary {
            task_id,
            title: extract_title(properties, "Title"),
            summary: extract_plain_text(properties, "Public Summary"),
            completed_at: extract_date(properties, "Completed At"),
            updated_at: match extract_date(properties, "Updated At") {
                Some(d) => d,
                None => String::new(),
            },
        },
    )
}

/// The published tasks that a database query answered with: one for each result page that
/// has a task id, in the order of the results.
pub fn read_published_tasks(body: &JsonValue) -> (r: Result<Vec<PublicTaskSummary>, AgentError>)
    ensures
        match as_items(field(*body, "results"@)) {
            Some(pages) => r is Ok && summaries_view(r->Ok_0@) == summaries_of_pages(pages),
            None => r == Err::<Vec<PublicTaskSummary>, AgentError>(
                AgentError::NotionMissingResults,
            ),
        },
{
    let pages = match get(body, "results") {
        Some(JsonValue::Array(pages)) => pages,
        _ => {
            return Err(AgentError::NotionMissingResults);
        },
    };
    let mut items: Vec<PublicTaskSummary> = Vec::new();
    let mut i: usize = 0;
    assert(pages@.take(0) =~= Seq::<JsonValue>::empty());
    assert(summaries_view(items@) =~= Seq::<SummaryModel>::empty());
    while i < pages.len()
        invariant
            i <= pages.len(),
            summaries_view(items@) == summaries_of_pages(pages@.take(i as int)),
        decreases pages.len() - i,
    {
        assert(pages@.take(i + 1).drop_last() =~= pages@.take(i as int));
        assert(pages@.take(i + 1).last() == pages@[i as int]);
        match page_summary(&pages[i]) {
            Some(summary) => {
                let ghost before = summaries_view(items@);
                let ghost m = summary_view(summary);
                items.push(summary);
                assert(summaries_view(items@) =~= before.push(m));
            },
            None => {},
        }
        i = i + 1;
    }
    assert(pages@.take(pages.len() as int) =~= pages@);
    Ok(items)
}

/// The created page that Notion answered with: its `id` and `url`, both required.
pub fn read_published_page(body: &JsonValue) -> (r: Result<PublishedPage, AgentError>)
    ensures
        match (as_text(field(*body, "id"@)), as_text(field(*body, "url"@))) {
            (Some(id), Some(url)) => r is Ok && r->Ok_0.id@ == id && r->Ok_0.url@ == url,
            (None, _) => r == Err::<PublishedPage, AgentError>(AgentError::NotionMissingPageId),
            (Some(_), None) => r == Err::<PublishedPage, AgentError>(
                AgentError::NotionMissingPageUrl,
            ),
        },
{
    let id = match text_of(get(body, "id")) {
        Some(id) => id,
        None => {
            return Err(AgentError::NotionMissingPageId);
        },
    };
    let url = match text_of(get(body, "url")) {
        Some(url) => url,
        None => {
            return Err(AgentError::NotionMissingPageUrl);
        },
    };
    Ok(PublishedPage { id, url })
}

/// The first of the tasks with this id.
pub fn find_public_task(tasks: Vec<PublicTaskSummary>, task_id: &str) -> (r: Option<
    PublicTaskSummary,
>)
    ensures
        match r {
            Some(t) => exists|i: int|
                #![trigger tasks@[i]]
                0 <= i < tasks@.len() && tasks@[i] == t && t.task_id@ == task_id@ && forall|
                    j: int,
                |
                    0 <= j < i ==> (#[trigger] tasks@[j]).task_id@ != task_id@,
            None => forall|j: int| 0 <= j < tasks@.len() ==> (#[trigger] tasks@[j]).task_id@ != task_id@,
        },
{
    let ghost all = tasks@;
    let mut list = tasks;
    let mut i: usize = 0;
    while i < list.len()
        invariant
            i <= list.len(),
            list@ == all,
            all == tasks@,
            forall|j: int| 0 <= j < i ==> (#[trigger] all[j]).task_id@ != task_id@,
        decreases list.len() - i,
    {
        if str_equal(list[i].task_id.as_str(), task_id) {
            let ghost id = list[i as int].task_id@;
            let t = list.remove(i);
            assert(all[i as int] == t);
            assert(t.task_id@ == id);
            return Some(t);
        }
        i = i + 1;
    }
    None
}

} // verus!
