//! The public feed and the public task page, rendered from published task summaries.
use vstd::prelude::*;

use crate::models::PublicTaskSummary;
use crate::text::{
    append_chars, chars_of, lemma_replace_absent_char, lemma_replace_char_concat,
    lemma_replace_char_single, replace_all,
};

verus! {

/// The escape of one character for XML and HTML text.
pub open spec fn escape_char(c: char) -> Seq<char> {
    if c == '&' {
        "&amp;"@
    } else if c == '<' {
        "&lt;"@
    } else if c == '>' {
        "&gt;"@
    } else if c == '"' {
        "&quot;"@
    } else if c == '\'' {
        "&apos;"@
    } else {
        seq![c]
    }
}

/// Every character escaped in turn (see `escaping_is_replacing_in_turn` for the same escape
/// as a chain of replacements).
pub open spec fn escaped(s: Seq<char>) -> Seq<char>
    decreases s.len(),
{
    if s.len() == 0 {
        Seq::empty()
    } else {
        escaped(s.drop_last()) + escape_char(s.last())
    }
}

pub open spec fn is_markup(c: char) -> bool {
    c == '<' || c == '>' || c == '"' || c == '\''
}

fn escape_char_into(out: &mut String, c: char)
    ensures
        final(out)@ == old(out)@ + escape_char(c),
{
    if c == '&' {
        out.append("&amp;");
    } else if c == '<' {
        out.append("&lt;");
    } else if c == '>' {
        out.append("&gt;");
    } else if c == '"' {
        out.append("&quot;");
    } else if c == '\'' {
        out.append("&apos;");
    } else {
        let one = vec![c];
        assert(one@ =~= seq![c]);
        append_chars(out, &one);
    }
}

fn append_escaped(out: &mut String, value: &str)
    ensures
        final(out)@ == old(out)@ + escaped(value@),
{
    let chars = chars_of(value);
    let ghost start = out@;
    let mut i: usize = 0;
    assert(chars@.take(0) =~= Seq::<char>::empty());
    assert(start + escaped(Seq::<char>::empty()) =~= start);
    while i < chars.len()
        invariant
            i <= chars.len(),
            out@ == start + escaped(chars@.take(i as int)),
        decreases chars.len() - i,
    {
        assert(chars@.take(i + 1).drop_last() =~= chars@.take(i as int));
        assert(chars@.take(i + 1).last() == chars@[i as int]);
        let ghost before = out@;
        escape_char_into(out, chars[i]);
        assert(out@ =~= start + escaped(chars@.take(i + 1)));
        i = i + 1;
    }
    assert(chars@.take(chars.len() as int) =~= chars@);
}

/// Escapes text for XML.
pub fn xml_escape(value: &str) -> (s: String)
    ensures
        s@ == escaped(value@),
{
    let mut s = String::new();
    append_escaped(&mut s, value);
    s
}

/// Escapes text for HTML, as for XML.
pub fn html_escape(value: &str) -> (s: String)
    ensures
        s@ == escaped(value@),
{
    xml_escape(value)
}

/// Escaped text holds no character that could open or close markup or an attribute value.
pub proof fn escaped_has_no_markup(s: Seq<char>)
    ensures
        forall|i: int| 0 <= i < escaped(s).len() ==> !is_markup(#[trigger] escaped(s)[i]),
    decreases s.len(),
{
    reveal_strlit("&amp;");
    reveal_strlit("&lt;");
    reveal_strlit("&gt;");
    reveal_strlit("&quot;");
    reveal_strlit("&apos;");
    if s.len() > 0 {
        escaped_has_no_markup(s.drop_last());
        let a = escaped(s.drop_last());
        let b = escape_char(s.last());
        assert(forall|i: int| 0 <= i < b.len() ==> !is_markup(#[trigger] b[i]));
        assert forall|i: int| 0 <= i < escaped(s).len() implies !is_markup(
            #[trigger] escaped(s)[i],
        ) by {
            if i < a.len() {
                assert(escaped(s)[i] == a[i]);
            } else {
                assert(escaped(s)[i] == b[i - a.len()]);
            }
        }
    }
}

/// The escape as a chain of replacements over the whole text: every `&` first, then every
/// `<`, `>`, `"` and `'` in turn.
pub open spec fn escaped_by_replacing(s: Seq<char>) -> Seq<char> {
    let a = replace_all(s, seq!['&'], "&amp;"@);
    let b = replace_all(a, seq!['<'], "&lt;"@);
    let c = replace_all(b, seq!['>'], "&gt;"@);
    let d = replace_all(c, seq!['"'], "&quot;"@);
    replace_all(d, seq!['\''], "&apos;"@)
}

proof fn lemma_replacing_concat(a: Seq<char>, b: Seq<char>)
    ensures
        escaped_by_replacing(a + b) == escaped_by_replacing(a) + escaped_by_replacing(b),
{
    let a1 = replace_all(a, seq!['&'], "&amp;"@);
    let b1 = replace_all(b, seq!['&'], "&amp;"@);
    lemma_replace_char_concat(a, b, '&', "&amp;"@);
    let a2 = replace_all(a1, seq!['<'], "&lt;"@);
    let b2 = replace_all(b1, seq!['<'], "&lt;"@);
    lemma_replace_char_concat(a1, b1, '<', "&lt;"@);
    let a3 = replace_all(a2, seq!['>'], "&gt;"@);
    let b3 = replace_all(b2, seq!['>'], "&gt;"@);
    lemma_replace_char_concat(a2, b2, '>', "&gt;"@);
    let a4 = replace_all(a3, seq!['"'], "&quot;"@);
    let b4 = replace_all(b3, seq!['"'], "&quot;"@);
    lemma_replace_char_concat(a3, b3, '"', "&quot;"@);
    lemma_replace_char_concat(a4, b4, '\'', "&apos;"@);
}

proof fn lemma_replacing_one(x: char)
    ensures
        escaped_by_replacing(seq![x]) == escape_char(x),
{
    reveal_strlit("&amp;");
    reveal_strlit("&lt;");
    reveal_strlit("&gt;");
    reveal_strlit("&quot;");
    reveal_strlit("&apos;");
    let amp = "&amp;"@;
    let lt = "&lt;"@;
    let gt = "&gt;"@;
    let quot = "&quot;"@;
    let apos = "&apos;"@;
    lemma_replace_char_single(x, '&', amp);
    let a = replace_all(seq![x], seq!['&'], amp);
    if x == '&' {
        assert(!amp.contains('<') && !amp.contains('>') && !amp.contains('"') && !amp.contains(
            '\'',
        ));
        lemma_replace_absent_char(amp, '<', lt);
        lemma_replace_absent_char(amp, '>', gt);
        lemma_replace_absent_char(amp, '"', quot);
        lemma_replace_absent_char(amp, '\'', apos);
    } else {
        lemma_replace_char_single(x, '<', lt);
        if x == '<' {
            assert(!lt.contains('>') && !lt.contains('"') && !lt.contains('\''));
            lemma_replace_absent_char(lt, '>', gt);
            lemma_replace_absent_char(lt, '"', quot);
            lemma_replace_absent_char(lt, '\'', apos);
        } else {
            lemma_replace_char_single(x, '>', gt);
            if x == '>' {
                assert(!gt.contains('"') && !gt.contains('\''));
                lemma_replace_absent_char(gt, '"', quot);
                lemma_replace_absent_char(gt, '\'', apos);
            } else {
                lemma_replace_char_single(x, '"', quot);
                if x == '"' {
                    assert(!quot.contains('\''));
                    lemma_replace_absent_char(quot, '\'', apos);
                } else {
                    lemma_replace_char_single(x, '\'', apos);
                }
            }
        }
    }
}

/// Escaping character by character gives the same text as replacing every `&`, then every
/// `<`, `>`, `"` and `'`, over the whole text: no replacement brings in a character that a
/// later one replaces.
pub proof fn escaping_is_replacing_in_turn(s: Seq<char>)
    ensures
        escaped(s) == escaped_by_replacing(s),
    decreases s.len(),
{
    if s.len() == 0 {
        let e = Seq::<char>::empty();
        assert(replace_all(e, seq!['&'], "&amp;"@) =~= e);
        assert(replace_all(e, seq!['<'], "&lt;"@) =~= e);
        assert(replace_all(e, seq!['>'], "&gt;"@) =~= e);
        assert(replace_all(e, seq!['"'], "&quot;"@) =~= e);
        assert(replace_all(e, seq!['\''], "&apos;"@) =~= e);
    } else {
        let init = s.drop_last();
        escaping_is_replacing_in_turn(init);
        assert(s =~= init + seq![s.last()]);
        lemma_replacing_concat(init, seq![s.last()]);
        lemma_replacing_one(s.last());
    }
}

/// When a summary is dated: when it was completed, or else when it was last updated.
pub open spec fn shown_date(t: PublicTaskSummary) -> Seq<char> {
    match t.completed_at {
        Some(c) => c@,
        None => t.updated_at@,
    }
}

/// The feed item of a published task.
pub open spec fn rss_item(base_url: Seq<char>, t: PublicTaskSummary) -> Seq<char> {
    "<item><title>"@ + escaped(t.title@) + "</title><link>"@ + escaped(
        base_url + "/tasks/"@ + t.task_id@,
    ) + "</link><guid>"@ + escaped(t.task_id@) + "</guid><description>"@ + escaped(t.summary@)
        + "</description><pubDate>"@ + escaped(shown_date(t)) + "</pubDate></item>"@
}

pub open spec fn rss_items(base_url: Seq<char>, ts: Seq<PublicTaskSummary>) -> Seq<char>
    decreases ts.len(),
{
    if ts.len() == 0 {
        Seq::empty()
    } else {
        rss_items(base_url, ts.drop_last()) + rss_item(base_url, ts.last())
    }
}

/// The RSS 2.0 feed of the published tasks, in the order given.
pub open spec fn rss_feed(base_url: Seq<char>, ts: Seq<PublicTaskSummary>) -> Seq<char> {
    "<?xml version=\"1.0\" encoding=\"UTF-8\"?><rss version=\"2.0\"><channel><title>discord-agent reports</title><link>"@
        + escaped(base_url)
        + "</link><description>Public summaries generated from private Notion task reports.</description>"@
        + rss_items(base_url, ts) + "</channel></rss>"@
}

fn append_item(out: &mut String, base_url: &str, t: &PublicTaskSummary)
    ensures
        final(out)@ == old(out)@ + rss_item(base_url@, *t),
{
    let mut link = String::from_str(base_url);
    link.append("/tasks/");
    link.append(t.task_id.as_str());
    let date = match &t.completed_at {
        Some(c) => c.as_str(),
        None => t.updated_at.as_str(),
    };
    out.append("<item><title>");
    append_escaped(out, t.title.as_str());
    out.append("</title><link>");
    append_escaped(out, link.as_str());
    out.append("</link><guid>");
    append_escaped(out, t.task_id.as_str());
    out.append("</guid><description>");
    append_escaped(out, t.summary.as_str());
    out.append("</description><pubDate>");
    append_escaped(out, date);
    out.append("</pubDate></item>");
}

pub fn render_rss(base_url: &str, tasks: &[PublicTaskSummary]) -> (xml: String)
    ensures
        xml@ == rss_feed(base_url@, tasks@),
{
    let mut items = String::new();
    let mut i: usize = 0;
    assert(tasks@.take(0) =~= Seq::<PublicTaskSummary>::empty());
    while i < tasks.len()
        invariant
            i <= tasks.len(),
            items@ == rss_items(base_url@, tasks@.take(i as int)),
        decreases tasks.len() - i,
    {
        assert(tasks@.take(i + 1).drop_last() =~= tasks@.take(i as int));
        assert(tasks@.take(i + 1).last() == tasks@[i as int]);
        append_item(&mut items, base_url, &tasks[i]);
        i = i + 1;
    }
    assert(tasks@.take(tasks.len() as int) =~= tasks@);
    let mut xml = String::from_str(
        "<?xml version=\"1.0\" encoding=\"UTF-8\"?><rss version=\"2.0\"><channel><title>discord-agent reports</title><link>",
    );
    append_escaped(&mut xml, base_url);
    xml.append(
        "</link><description>Public summaries generated from private Notion task reports.</description>",
    );
    xml.append(items.as_str());
    xml.append("</channel></rss>");
    xml
}

/// The public page of a published task.
pub open spec fn task_page(t: PublicTaskSummary) -> Seq<char> {
    "<!DOCTYPE html><html lang=\"ja\"><head><meta charset=\"utf-8\"><title>"@ + escaped(t.title@)
        + "</title></head><body><main><h1>"@ + escaped(t.title@)
        + "</h1><p><strong>Task ID:</strong> "@ + escaped(t.task_id@)
        + "</p><p><strong>Updated:</strong> "@ + escaped(shown_date(t))
        + "</p><article><pre style=\"white-space: pre-wrap;\">"@ + escaped(t.summary@)
        + "</pre></article></main></body></html>"@
}

pub fn render_task_page(task: &PublicTaskSummary) -> (html: String)
    ensures
        html@ == task_page(*task),
{
    let date = match &task.completed_at {
        Some(c) => c.as_str(),
        None => task.updated_at.as_str(),
    };
    let mut html = String::from_str(
        "<!DOCTYPE html><html lang=\"ja\"><head><meta charset=\"utf-8\"><title>",
    );
    append_escaped(&mut html, task.title.as_str());
    html.append("</title></head><body><main><h1>");
    append_escaped(&mut html, task.title.as_str());
    html.append("</h1><p><strong>Task ID:</strong> ");
    append_escaped(&mut html, task.task_id.as_str());
    html.append("</p><p><strong>Updated:</strong> ");
    append_escaped(&mut html, date);
    html.append("</p><article><pre style=\"white-space: pre-wrap;\">");
    append_escaped(&mut html, task.summary.as_str());
    html.append("</pre></article></main></body></html>");
    html
}

} // verus!
