use discord_agent::models::PublicTaskSummary;
use discord_agent::rss_server::{html_escape, render_rss, render_task_page, xml_escape};

fn summary(id: &str, completed: Option<&str>) -> PublicTaskSummary {
    PublicTaskSummary {
        task_id: id.into(),
        title: "A & B".into(),
        summary: "<b>\"x\"</b> 'y'".into(),
        completed_at: completed.map(|c| c.to_string()),
        updated_at: "upd".into(),
    }
}

#[test]
fn escapes_markup_characters() {
    assert_eq!(xml_escape("a<b>&\"'"), "a&lt;b&gt;&amp;&quot;&apos;");
    assert_eq!(html_escape("&amp;"), "&amp;amp;");
}

#[test]
fn renders_feed_items_in_order() {
    let xml = render_rss("https://pub", &[summary("t1", Some("done")), summary("t2", None)]);
    let expected = [
        "<?xml version=\"1.0\" encoding=\"UTF-8\"?><rss version=\"2.0\"><channel><title>discord-agent reports</title>",
        "<link>https://pub</link><description>Public summaries generated from private Notion task reports.</description>",
        "<item><title>A &amp; B</title><link>https://pub/tasks/t1</link><guid>t1</guid>",
        "<description>&lt;b&gt;&quot;x&quot;&lt;/b&gt; &apos;y&apos;</description><pubDate>done</pubDate></item>",
        "<item><title>A &amp; B</title><link>https://pub/tasks/t2</link><guid>t2</guid>",
        "<description>&lt;b&gt;&quot;x&quot;&lt;/b&gt; &apos;y&apos;</description><pubDate>upd</pubDate></item>",
        "</channel></rss>",
    ]
    .join("");
    assert_eq!(xml, expected);
}

#[test]
fn renders_task_page() {
    let html = render_task_page(&summary("t9", None));
    assert!(html.starts_with("<!DOCTYPE html><html lang=\"ja\"><head><meta charset=\"utf-8\"><title>A &amp; B</title></head><body>"));
    assert!(html.contains("<p><strong>Task ID:</strong> t9</p><p><strong>Updated:</strong> upd</p>"));
    assert!(html.ends_with("&apos;y&apos;</pre></article></main></body></html>"));
}
