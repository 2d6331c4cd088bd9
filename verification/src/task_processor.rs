//! Turning a finished Codex run into the stored raw output and a one-sentence public summary.
use vstd::prelude::*;

use crate::codex::CodexOutput;
use crate::discord_bot::{discord_text, truncate_for_discord};
use crate::models::TaskRecord;
use crate::notion::PublishedPage;
use crate::text::{
    CharClass, append_chars, is_white, lemma_one_line, lemma_trim_by_first,
    lemma_trim_end_keeps_prefix, lemma_trim_end_keeps_through, lemma_trim_start_first,
    lemma_trim_twice, chars_of, contains, trim_end_by,
    contains_seq, extend, lines, lines_vec, slice, string_of, trim, trim_by, trim_by_vec,
    trim_start_by, trim_start_by_vec, trim_vec, views, word_key_points, word_key_points_vec,
    word_next_steps, word_next_steps_vec, word_summary, word_summary_vec,
};

verus! {

/// The stored raw output: stdout alone when stderr is blank, otherwise both streams,
/// trimmed, under `STDOUT` and `STDERR` headings.
pub open spec fn raw_output_of(stdout: Seq<char>, stderr: Seq<char>) -> Seq<char> {
    if trim(stderr).len() == 0 {
        stdout
    } else {
        "STDOUT\n"@ + trim(stdout) + "\n\nSTDERR\n"@ + trim(stderr)
    }
}

/// The heading candidate of a line with its decorations removed: stars around it, a
/// leading `#`, and a leading numbering of digits, `.`, `)`, `:`, `-` and spaces.
pub open spec fn heading_candidate(v: Seq<char>) -> Seq<char> {
    let a = trim_by(trim(v), CharClass::Exactly('*'));
    let b = trim(trim_start_by(a, CharClass::Exactly('#')));
    let c = trim(trim_start_by(b, CharClass::CandidateIndex));
    trim(trim_by(c, CharClass::Exactly('*')))
}

/// `n` spelled as `lower` in any mix of ASCII cases (`upper` is `lower` in capitals).
pub open spec fn same_ignoring_ascii_case(n: Seq<char>, lower: Seq<char>, upper: Seq<char>) -> bool {
    n.len() == lower.len() && n.len() == upper.len() && forall|i: int|
        0 <= i < n.len() ==> n[i] == lower[i] || n[i] == upper[i]
}

/// A line that is a heading or a stream label rather than content: its candidate is empty,
/// reads `stdout` or `stderr` in any case, or names one of the report's sections.
/// (Lower-casing the candidate, as the comparison needs, can turn no other character into
/// one of these ASCII letters or into the Japanese words, so case folding of ASCII is all
/// that the test depends on.)
pub open spec fn is_structural(v: Seq<char>) -> bool {
    let n = heading_candidate(v);
    ||| n.len() == 0
    ||| same_ignoring_ascii_case(n, "stdout"@, "STDOUT"@)
    ||| same_ignoring_ascii_case(n, "stderr"@, "STDERR"@)
    ||| contains(n, word_summary())
    ||| contains(n, word_key_points())
    ||| contains(n, word_next_steps())
}

/// The first line that, trimmed, is non-empty and not structural; trimmed.
pub open spec fn first_content_line(ls: Seq<Seq<char>>) -> Option<Seq<char>>
    decreases ls.len(),
{
    if ls.len() == 0 {
        None
    } else {
        let l = trim(ls[0]);
        if l.len() > 0 && !is_structural(l) {
            Some(l)
        } else {
            first_content_line(ls.drop_first())
        }
    }
}

pub open spec fn is_sentence_end(c: char) -> bool {
    c == '\u{3002}' || c == '.' || c == '!' || c == '?' || c == '\n' || c == '\r'
}

/// `s` up to and including its first sentence-ending character, or all of `s`.
pub open spec fn through_sentence_end(s: Seq<char>) -> Seq<char>
    decreases s.len(),
{
    if s.len() == 0 {
        s
    } else if is_sentence_end(s[0]) {
        seq![s[0]]
    } else {
        seq![s[0]] + through_sentence_end(s.drop_first())
    }
}

pub open spec fn first_sentence_of(s: Seq<char>) -> Seq<char> {
    trim(through_sentence_end(s))
}

/// `s` itself when it has at most `max` characters, else its first `max` and `...`.
pub open spec fn with_ellipsis(s: Seq<char>, max: int) -> Seq<char> {
    if s.len() <= max {
        s
    } else {
        s.take(max) + "..."@
    }
}

/// The public summary of a run's output: the first sentence of its first content line (or
/// of the whole trimmed output when no line is content), cut to 80 characters.
pub open spec fn public_summary_of(output: Seq<char>) -> Seq<char> {
    let t = trim(output);
    if t.len() == 0 {
        "No summary available."@
    } else {
        let source = match first_content_line(lines(t)) {
            Some(l) => l,
            None => t,
        };
        with_ellipsis(first_sentence_of(source), 80)
    }
}

proof fn lemma_content_line_begins_with_text(ls: Seq<Seq<char>>)
    ensures
        first_content_line(ls) matches Some(l) ==> l.len() > 0 && !is_white(l[0]),
    decreases ls.len(),
{
    if ls.len() > 0 {
        lemma_trim_by_first(ls[0], CharClass::Whitespace);
        lemma_content_line_begins_with_text(ls.drop_first());
    }
}

/// The public summary of any output is a non-empty text of at most 83 characters (80 and
/// `...`), so it always fits the feed and the Notion property.
pub proof fn public_summaries_are_short(output: Seq<char>)
    ensures
        0 < public_summary_of(output).len() <= 83,
{
    reveal_strlit("No summary available.");
    reveal_strlit("...");
    let t = trim(output);
    if t.len() > 0 {
        lemma_trim_by_first(output, CharClass::Whitespace);
        lemma_content_line_begins_with_text(lines(t));
        let source = match first_content_line(lines(t)) {
            Some(l) => l,
            None => t,
        };
        let through = through_sentence_end(source);
        assert(through.len() > 0 && through[0] == source[0]);
        lemma_trim_by_first(through, CharClass::Whitespace);
    }
}

/// No character of `c` ends a sentence: none is `。`, `.`, `!`, `?`, a newline or a
/// carriage return.
pub open spec fn free_of_sentence_ends(c: Seq<char>) -> bool {
    forall|i: int|
        0 <= i < c.len() ==> #[trigger] c[i] != '\u{3002}' && c[i] != '.' && c[i] != '!' && c[i]
            != '?' && c[i] != '\n' && c[i] != '\r'
}

proof fn lemma_through_end(c: Seq<char>, e: char, d: Seq<char>)
    requires
        free_of_sentence_ends(c),
        e == '\u{3002}' || e == '.' || e == '!' || e == '?' || e == '\n' || e == '\r',
    ensures
        through_sentence_end(c + seq![e] + d) == c + seq![e],
    decreases c.len(),
{
    let s = c + seq![e] + d;
    if c.len() == 0 {
        assert(s[0] == e);
        assert(seq![s[0]] =~= c + seq![e]);
    } else {
        assert(s[0] == c[0]);
        assert(s.drop_first() =~= c.drop_first() + seq![e] + d);
        lemma_through_end(c.drop_first(), e, d);
        assert(seq![c[0]] + (c.drop_first() + seq![e]) =~= c + seq![e]);
    }
}

/// The first sentence of a text ends at its first `。` (the Japanese full stop), `.`, `!`,
/// `?`, newline or carriage return, which it keeps: for any `c` free of these and any
/// such `e`, the first sentence of `c + e + d` is `c + e`, trimmed, whatever `d` holds.
pub proof fn first_sentence_ends_at_its_stop(c: Seq<char>, e: char, d: Seq<char>)
    requires
        free_of_sentence_ends(c),
        e == '\u{3002}' || e == '.' || e == '!' || e == '?' || e == '\n' || e == '\r',
    ensures
        first_sentence_of(c + seq![e] + d) == trim(c + seq![e]),
{
    lemma_through_end(c, e, d);
}

/// The public summary of a one-line output that starts with text and whose first sentence
/// ends, within 80 characters, at `。`, `.`, `!` or `?` is exactly that first sentence:
/// for `c` free of sentence ends, beginning with a non-blank character and shorter than 80
/// characters, the summary of `c + e + d` (`d` without a newline) is `c + e`.
pub proof fn one_line_summary_is_its_first_sentence(c: Seq<char>, e: char, d: Seq<char>)
    requires
        free_of_sentence_ends(c),
        0 < c.len() < 80,
        !is_white(c[0]),
        e == '\u{3002}' || e == '.' || e == '!' || e == '?',
        forall|i: int| 0 <= i < d.len() ==> #[trigger] d[i] != '\n',
    ensures
        public_summary_of(c + seq![e] + d) == c + seq![e],
{
    let w = CharClass::Whitespace;
    let o = c + seq![e] + d;
    let n = c.len() as int;
    // Trimming keeps the start, and everything up to `e`.
    assert(o[0] == c[0]);
    lemma_trim_start_first(o, w);
    assert(trim_start_by(o, w) == o);
    assert(o[n] == e);
    lemma_trim_end_keeps_through(o, w, n);
    lemma_trim_end_keeps_prefix(o, w);
    let t = trim(o);
    assert(t == o.take(t.len() as int));
    let rest = d.take(t.len() - n - 1);
    assert(t =~= c + seq![e] + rest);
    // One line, trimmed already.
    assert forall|i: int| 0 <= i < t.len() implies #[trigger] t[i] != '\n' by {
        if i < n {
            assert(t[i] == c[i]);
        } else if i > n {
            assert(t[i] == d[i - n - 1]);
        }
    }
    lemma_one_line(t);
    lemma_trim_twice(o, w);
    assert(trim(t) == t);
    assert(seq![t].drop_first() =~= Seq::<Seq<char>>::empty());
    assert(first_content_line(Seq::<Seq<char>>::empty()) is None);
    assert(seq![t][0] == t);
    assert(lines(t) == seq![t]);
    let source = match first_content_line(lines(t)) {
        Some(l) => l,
        None => t,
    };
    assert(source == t);
    first_sentence_ends_at_its_stop(c, e, rest);
    // `c + e` is trimmed already.
    let ce = c + seq![e];
    assert(ce[0] == c[0]);
    lemma_trim_start_first(ce, w);
    assert(!is_white(ce.last()));
    assert(trim_end_by(ce, w) == ce);
}

pub fn render_raw_output(output: &CodexOutput) -> (r: String)
    ensures
        r@ == raw_output_of(output.stdout@, output.stderr@),
{
    let err = chars_of(output.stderr.as_str());
    let err_trimmed = trim_vec(&err);
    if err_trimmed.len() == 0 {
        return output.stdout.clone();
    }
    let out = chars_of(output.stdout.as_str());
    let out_trimmed = trim_vec(&out);
    let mut r = String::from_str("STDOUT\n");
    append_chars(&mut r, &out_trimmed);
    r.append("\n\nSTDERR\n");
    append_chars(&mut r, &err_trimmed);
    r
}

fn same_ignoring_case_vec(n: &Vec<char>, lower: &str, upper: &str) -> (r: bool)
    ensures
        r == same_ignoring_ascii_case(n@, lower@, upper@),
{
    let l = chars_of(lower);
    let u = chars_of(upper);
    if n.len() != l.len() || n.len() != u.len() {
        return false;
    }
    let mut i: usize = 0;
    while i < n.len()
        invariant
            n.len() == l.len() == u.len(),
            i <= n.len(),
            l@ == lower@,
            u@ == upper@,
            forall|j: int| 0 <= j < i ==> n@[j] == l@[j] || n@[j] == u@[j],
        decreases n.len() - i,
    {
        if n[i] != l[i] && n[i] != u[i] {
            return false;
        }
        i = i + 1;
    }
    true
}

fn normalize_heading_candidate(v: &Vec<char>) -> (r: Vec<char>)
    ensures
        r@ == heading_candidate(v@),
{
    let a0 = trim_vec(v);
    let a = trim_by_vec(&a0, CharClass::Exactly('*'));
    let b0 = trim_start_by_vec(&a, CharClass::Exactly('#'));
    let b = trim_vec(&b0);
    let c0 = trim_start_by_vec(&b, CharClass::CandidateIndex);
    let c = trim_vec(&c0);
    let d0 = trim_by_vec(&c, CharClass::Exactly('*'));
    trim_vec(&d0)
}

fn looks_like_structural_line(v: &Vec<char>) -> (r: bool)
    ensures
        r == is_structural(v@),
{
    let n = normalize_heading_candidate(v);
    n.len() == 0 || same_ignoring_case_vec(&n, "stdout", "STDOUT") || same_ignoring_case_vec(
        &n,
        "stderr",
        "STDERR",
    ) || contains_seq(&n, &word_summary_vec()) || contains_seq(&n, &word_key_points_vec())
        || contains_seq(&n, &word_next_steps_vec())
}

fn first_summary_line(t: &Vec<char>) -> (r: Option<Vec<char>>)
    ensures
        match first_content_line(lines(t@)) {
            Some(l) => r is Some && r->0@ == l,
            None => r is None,
        },
{
    let ls = lines_vec(t);
    let ghost lv = views(ls@);
    let mut i: usize = 0;
    assert(lv.skip(0) =~= lv);
    while i < ls.len()
        invariant
            i <= ls.len(),
            lv == views(ls@),
            lv == lines(t@),
            first_content_line(lv) == first_content_line(lv.skip(i as int)),
        decreases ls.len() - i,
    {
        assert(lv.skip(i as int).drop_first() =~= lv.skip(i + 1));
        assert(lv.skip(i as int)[0] == ls@[i as int]@);
        let l = trim_vec(&ls[i]);
        if l.len() > 0 && !looks_like_structural_line(&l) {
            return Some(l);
        }
        i = i + 1;
    }
    None
}

fn first_sentence(v: &Vec<char>) -> (r: Vec<char>)
    ensures
        r@ == first_sentence_of(v@),
{
    let mut i: usize = 0;
    assert(v@.skip(0) =~= v@);
    assert(v@.take(0) + through_sentence_end(v@.skip(0)) =~= through_sentence_end(v@));
    while i < v.len() && !(v[i] == '\u{3002}' || v[i] == '.' || v[i] == '!' || v[i] == '?'
        || v[i] == '\n' || v[i] == '\r')
        invariant
            i <= v.len(),
            through_sentence_end(v@) == v@.take(i as int) + through_sentence_end(v@.skip(i as int)),
        decreases v.len() - i,
    {
        let ghost t = v@.skip(i as int);
        assert(t.drop_first() =~= v@.skip(i + 1));
        assert(v@.take(i as int) + (seq![v@[i as int]] + through_sentence_end(v@.skip(i + 1)))
            =~= v@.take(i + 1) + through_sentence_end(v@.skip(i + 1)));
        i = i + 1;
    }
    let end = if i < v.len() {
        assert(v@.take(i as int) + seq![v@[i as int]] =~= v@.take(i + 1));
        i + 1
    } else {
        assert(v@.take(i as int) + through_sentence_end(v@.skip(i as int)) =~= v@.take(
            i as int,
        ));
        i
    };
    assert(v@.subrange(0, end as int) =~= v@.take(end as int));
    let through = slice(v, 0, end);
    trim_vec(&through)
}

fn truncate_with_ellipsis(v: &Vec<char>, max_chars: usize) -> (r: Vec<char>)
    ensures
        r@ == with_ellipsis(v@, max_chars as int),
{
    if v.len() <= max_chars {
        return slice(v, 0, v.len());
    }
    proof {
        reveal_strlit("...");
    }
    let mut r = slice(v, 0, max_chars);
    let dots = chars_of("...");
    extend(&mut r, &dots);
    r
}

/// The one-sentence public summary of a run's output.
pub fn build_public_summary(output: &str) -> (s: String)
    ensures
        s@ == public_summary_of(output@),
{
    let all = chars_of(output);
    let t = trim_vec(&all);
    if t.len() == 0 {
        return String::from_str("No summary available.");
    }
    let source = match first_summary_line(&t) {
        Some(l) => l,
        None => t,
    };
    let sentence = first_sentence(&source);
    let short = truncate_with_ellipsis(&sentence, 80);
    string_of(&short)
}

} // verus!

verus! {

// ----------------------------------------------------------------------------------------
// After a run
// ----------------------------------------------------------------------------------------
/// What to do once Codex has finished with a task.
#[derive(Debug)]
pub enum CompletionPlan {
    /// Record the task as failed with this error text (and raw output, where there is
    /// one), and post the notice.
    Fail { error_text: String, raw_output: Option<String>, notice: String },
    /// Post the notice, mark the task summarizing, then publish and complete it with these
    /// outputs.
    Publish { raw_output: String, public_summary: String, notice: String },
}

pub open spec fn failed_notice(task_id: Seq<char>, detail: Seq<char>) -> Seq<char> {
    "Task `"@ + task_id + "` failed.\n"@ + detail
}

/// The decision after a run: a run that could not be made fails the task with its error; a
/// run that exited unsuccessfully fails it with its raw output; a successful run is
/// summarized and published.
pub open spec fn completion_plan_ok(
    plan: CompletionPlan,
    task_id: Seq<char>,
    result: Result<CodexOutput, String>,
) -> bool {
    match result {
        Err(m) => match plan {
            CompletionPlan::Fail { error_text, raw_output, notice } => error_text@ == m@
                && raw_output is None && notice@ == failed_notice(task_id, m@),
            _ => false,
        },
        Ok(o) => if !o.success {
            let raw = raw_output_of(o.stdout@, o.stderr@);
            match plan {
                CompletionPlan::Fail { error_text, raw_output, notice } => error_text@
                    == "codex exited with a non-zero status"@ && raw_output is Some
                    && raw_output->0@ == raw && notice@ == failed_notice(task_id, discord_text(raw)),
                _ => false,
            }
        } else {
            match plan {
                CompletionPlan::Publish { raw_output, public_summary, notice } => raw_output@
                    == raw_output_of(o.stdout@, o.stderr@) && public_summary@ == public_summary_of(
                    o.stdout@,
                ) && notice@ == "Task `"@ + task_id + "` is summarizing."@,
                _ => false,
            }
        },
    }
}

fn notice_failed(task_id: &str, detail: &str) -> (s: String)
    ensures
        s@ == failed_notice(task_id@, detail@),
{
    let mut s = String::from_str("Task `");
    s.append(task_id);
    s.append("` failed.\n");
    s.append(detail);
    s
}

pub fn plan_completion(task_id: &str, result: &Result<CodexOutput, String>) -> (plan:
    CompletionPlan)
    ensures
        completion_plan_ok(plan, task_id@, *result),
{
    match result {
        Err(message) => CompletionPlan::Fail {
            error_text: message.clone(),
            raw_output: None,
            notice: notice_failed(task_id, message.as_str()),
        },
        Ok(output) => {
            let raw = render_raw_output(output);
            if !output.success {
                let shown = truncate_for_discord(raw.as_str());
                let notice = notice_failed(task_id, shown.as_str());
                CompletionPlan::Fail {
                    error_text: String::from_str("codex exited with a non-zero status"),
                    raw_output: Some(raw),
                    notice,
                }
            } else {
                let mut notice = String::from_str("Task `");
                notice.append(task_id);
                notice.append("` is summarizing.");
                CompletionPlan::Publish {
                    raw_output: raw,
                    public_summary: build_public_summary(output.stdout.as_str()),
                    notice,
                }
            }
        },
    }
}

/// The task as it is published: with its outputs, completed and updated at `now`, and
/// marked for publishing; otherwise unchanged.
pub fn prepare_published_task(
    task: TaskRecord,
    raw_output: String,
    public_summary: String,
    now: String,
) -> (t: TaskRecord)
    ensures
        t == (TaskRecord {
            raw_output: Some(raw_output),
            public_summary: Some(public_summary),
            updated_at: now,
            completed_at: Some(now),
            publish: true,
            ..task
        }),
{
    let completed = now.clone();
    TaskRecord {
        raw_output: Some(raw_output),
        public_summary: Some(public_summary),
        updated_at: now,
        completed_at: Some(completed),
        publish: true,
        ..task
    }
}

/// What to do once publishing to Notion has been tried.
#[derive(Debug)]
pub enum PublishOutcome {
    /// Record the task as completed, with the Notion page where one was created, and post
    /// the notice.
    Complete { notion_page_id: Option<String>, notion_page_url: Option<String>, notice: String },
    /// Record the task as failed with this error text, and post the notice.
    Fail { error_text: String, notice: String },
}

pub open spec fn completed_notice(task_id: Seq<char>, page: Option<PublishedPage>) -> Seq<char> {
    match page {
        Some(p) => "Task `"@ + task_id + "` completed.\nNotion Page: "@ + p.url@,
        None => "Task `"@ + task_id + "` completed."@,
    }
}

/// The decision after publishing: a task whose page was created, or that Notion was not
/// configured for, is completed with the page it got; a failed publish fails the task with
/// its error.
pub fn plan_after_publish(task_id: &str, published: &Result<Option<PublishedPage>, String>) -> (o:
    PublishOutcome)
    ensures
        match published {
            Ok(page) => match o {
                PublishOutcome::Complete { notion_page_id, notion_page_url, notice } => {
                    &&& notion_page_id == match page {
                        Some(p) => Some(p.id),
                        None => None::<String>,
                    }
                    &&& notion_page_url == match page {
                        Some(p) => Some(p.url),
                        None => None::<String>,
                    }
                    &&& notice@ == completed_notice(task_id@, *page)
                },
                _ => false,
            },
            Err(m) => match o {
                PublishOutcome::Fail { error_text, notice } => error_text@ == m@ && notice@
                    == failed_notice(task_id@, m@),
                _ => false,
            },
        },
{
    match published {
        Ok(page) => {
            let notice = completion_notice(task_id, page.as_ref());
            match page {
                Some(p) => PublishOutcome::Complete {
                    notion_page_id: Some(p.id.clone()),
                    notion_page_url: Some(p.url.clone()),
                    notice,
                },
                None => PublishOutcome::Complete { notion_page_id: None, notion_page_url: None, notice },
            }
        },
        Err(message) => PublishOutcome::Fail {
            error_text: message.clone(),
            notice: notice_failed(task_id, message.as_str()),
        },
    }
}

/// The message that reports a completed task, with its Notion page where it has one.
pub fn completion_notice(task_id: &str, page: Option<&PublishedPage>) -> (s: String)
    ensures
        match page {
            Some(p) => s@ == "Task `"@ + task_id@ + "` completed.\nNotion Page: "@ + p.url@,
            None => s@ == "Task `"@ + task_id@ + "` completed."@,
        },
{
    let mut s = String::from_str("Task `");
    s.append(task_id);
    match page {
        Some(p) => {
            s.append("` completed.\nNotion Page: ");
            s.append(p.url.as_str());
        },
        None => {
            s.append("` completed.");
        },
    }
    s
}

} // verus!
