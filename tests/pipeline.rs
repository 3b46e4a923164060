use hn_watch::dispatch::{send_body, send_uri, Dispatcher};
use hn_watch::message::format_message;
use hn_watch::pipeline::Round;
use hn_watch::story::{page_text, post_link, search_hits, FetchFailure, Hit, Search};
use hn_watch::summary::{plan_summary, summary_or_placeholder, SummaryPlan};
use hn_watch::text::{count_words, take_words};
use hn_watch::window::{lower_bound, search_url};

const MINIMAL: &str = "Bot found minimal info on webpage to warrant a summary, please see the text on the page the Bot grabbed below if there are any, or use the link above to see the news at its source:\n";

fn hit(title: &str, url: Option<&str>, id: &str, author: &str, at: i64) -> Hit {
    Hit {
        title: title.to_string(),
        url: url.map(|u| u.to_string()),
        object_id: id.to_string(),
        author: author.to_string(),
        created_at_i: at,
    }
}

fn many_words(n: usize) -> String {
    let mut s = String::new();
    for i in 0..n {
        if i > 0 {
            s.push(' ');
        }
        s.push_str(&format!("w{}", i));
    }
    s
}

#[test]
fn lower_bound_subtracts_five_hours() {
    assert_eq!(lower_bound(1_700_000_000), 1_699_982_000);
    assert_eq!(lower_bound(18000), 0);
    assert_eq!(lower_bound(1_700_000_000), lower_bound(1_700_000_000));
}

#[test]
fn search_url_holds_keyword_and_bound() {
    assert_eq!(
        search_url("ChatGPT", 1_699_982_000),
        "https://hn.algolia.com/api/v1/search_by_date?tags=story&query=ChatGPT&numericFilters=created_at_i>1699982000"
    );
    assert_eq!(
        search_url("rust", 0),
        "https://hn.algolia.com/api/v1/search_by_date?tags=story&query=rust&numericFilters=created_at_i>0"
    );
}

#[test]
fn fetch_url_prefers_external_link() {
    let h = hit("X", Some("https://example.com/a"), "42", "bob", 0);
    assert_eq!(h.fetch_url(), "https://example.com/a");
    assert_eq!(h.post_url(), "https://news.ycombinator.com/item?id=42");
    assert_eq!(h.fetch_failure(), FetchFailure::ExternalUrl);
}

#[test]
fn fetch_url_falls_back_to_post() {
    let h = hit("X", None, "42", "bob", 0);
    assert_eq!(h.fetch_url(), "https://news.ycombinator.com/item?id=42");
    assert_eq!(h.fetch_failure(), FetchFailure::PostUrl);
    assert_eq!(post_link("7"), "https://news.ycombinator.com/item?id=7");
}

#[test]
fn page_text_uses_placeholders() {
    let ext = hit("X", Some("https://example.com"), "1", "a", 0);
    let post = hit("X", None, "1", "a", 0);
    assert_eq!(page_text(&ext, None), "failed to scrape text with hit url");
    assert_eq!(page_text(&post, None), "failed to scrape text with post url");
    assert_eq!(page_text(&post, Some("body".to_string())), "body");
}

#[test]
fn count_words_splits_on_any_whitespace() {
    assert_eq!(count_words(""), 0);
    assert_eq!(count_words("   \t\n "), 0);
    assert_eq!(count_words("one"), 1);
    assert_eq!(count_words("  one  two\tthree\nfour "), 4);
    assert_eq!(count_words("a\u{3000}b\u{00a0}c"), 3);
    assert_eq!(count_words(&many_words(250)), 250);
}

#[test]
fn take_words_joins_with_single_spaces() {
    assert_eq!(take_words("  a \t b\n\nc  d ", 3), "a b c");
    assert_eq!(take_words("a b", 10), "a b");
    assert_eq!(take_words("", 10), "");
}

#[test]
fn short_text_is_shown_verbatim() {
    let text = "  only   a few words\there ";
    match plan_summary("42", text) {
        SummaryPlan::Verbatim(v) => assert_eq!(v, format!("{}{}", MINIMAL, text)),
        SummaryPlan::Ask(_) => panic!("short text must not be condensed"),
    }
    let hundred = many_words(100);
    match plan_summary("42", &hundred) {
        SummaryPlan::Verbatim(v) => assert_eq!(v, format!("{}{}", MINIMAL, hundred)),
        SummaryPlan::Ask(_) => panic!("a text of exactly the threshold is shown as it is"),
    }
}

#[test]
fn long_text_asks_the_model() {
    let text = many_words(101);
    match plan_summary("42", &text) {
        SummaryPlan::Ask(q) => {
            assert_eq!(q.question, format!("summarize this within 100 words: {}", text));
            assert_eq!(q.session, "summary#42");
            assert_eq!(q.system, "You're an AI assistant.");
            assert_eq!(q.max_tokens, 128);
            assert_eq!(q.retries, 3);
        }
        SummaryPlan::Verbatim(_) => panic!("long text must be condensed"),
    }
}

#[test]
fn model_input_is_capped() {
    let text = many_words(10_050);
    match plan_summary("1", &text) {
        SummaryPlan::Ask(q) => {
            let body = q.question.strip_prefix("summarize this within 100 words: ").unwrap();
            assert_eq!(body.split_whitespace().count(), 10_000);
            assert_eq!(body, many_words(10_000));
        }
        SummaryPlan::Verbatim(_) => panic!("long text must be condensed"),
    }
}

#[test]
fn failed_summary_gets_placeholder() {
    assert_eq!(summary_or_placeholder(None), "unexpected summary generated");
    assert_eq!(summary_or_placeholder(Some("short".to_string())), "short");
}

#[test]
fn message_with_source_line() {
    let h = hit("Title", Some("https://example.com/x"), "9", "alice", 0);
    assert_eq!(
        format_message(&h, "sum"),
        "- *[Title]*(https://news.ycombinator.com/item?id=9)\n[source](https://example.com/x) by alice\nsum"
    );
}

#[test]
fn message_without_source_line() {
    let h = hit("Title", None, "9", "alice", 0);
    let m = format_message(&h, "sum");
    assert_eq!(m, "- *[Title]*(https://news.ycombinator.com/item?id=9)\n by alice\nsum");
    assert!(!m.contains("[source]"));
}

#[test]
fn message_fields_read_back() {
    let h = hit("A title", Some("https://e.org/p"), "123", "carol", 0);
    let m = format_message(&h, "body text");
    let rest = m.strip_prefix("- *[").unwrap();
    let (title, rest) = rest.split_once("]*(").unwrap();
    let (post, rest) = rest.split_once(")\n").unwrap();
    let rest = rest.strip_prefix("[source](").unwrap();
    let (source, rest) = rest.split_once(")").unwrap();
    let rest = rest.strip_prefix(" by ").unwrap();
    let (author, body) = rest.split_once("\n").unwrap();
    assert_eq!(title, "A title");
    assert_eq!(post, "https://news.ycombinator.com/item?id=123");
    assert_eq!(source, "https://e.org/p");
    assert_eq!(author, "carol");
    assert_eq!(body, "body text");
}

#[test]
fn unreachable_post_gives_placeholder_notification() {
    let hits = search_hits(Some(Search { hits: vec![hit("X", None, "42", "bob", 1_700_000_000)] }));
    assert_eq!(hits.len(), 1);
    let h = &hits[0];
    let text = page_text(h, None);
    let body = match plan_summary(&h.object_id, &text) {
        SummaryPlan::Verbatim(v) => v,
        SummaryPlan::Ask(_) => panic!("a placeholder is too short to condense"),
    };
    let m = format_message(h, &body);
    assert!(m.contains("failed to scrape text with post url"));
    assert!(!m.contains("[source]"));
    assert!(m.starts_with("- *[X]*(https://news.ycombinator.com/item?id=42)\n by bob\n"));
}

#[test]
fn no_hits_means_no_dispatch() {
    let hits = search_hits(Some(Search { hits: vec![] }));
    assert!(hits.is_empty());
    assert!(search_hits(None).is_empty());
    let d = Dispatcher::new(vec![]);
    assert!(d.is_done());
    assert_eq!(d.next_message(), None);
    assert_eq!(d.attempted(), 0);
}

#[test]
fn failed_delivery_does_not_stop_the_next() {
    let mut d = Dispatcher::new(vec!["first".to_string(), "second".to_string()]);
    assert_eq!(d.next_message(), Some("first".to_string()));
    d.record(false);
    assert!(!d.is_done());
    assert_eq!(d.next_message(), Some("second".to_string()));
    d.record(true);
    assert!(d.is_done());
    assert_eq!(d.next_message(), None);
    assert_eq!(d.attempted(), 2);
    assert_eq!(d.delivered(), 1);
}

#[test]
fn send_body_escapes_text() {
    assert_eq!(
        send_body(2142063265, "a \"b\"\n\\c").unwrap(),
        "{\"chat_id\":2142063265,\"text\":\"a \\\"b\\\"\\n\\\\c\",\"parse_mode\":\"Markdown\"}"
    );
    assert_eq!(
        send_body(-100, "\u{1}\t").unwrap(),
        "{\"chat_id\":-100,\"text\":\"\\u0001\\t\",\"parse_mode\":\"Markdown\"}"
    );
    assert_eq!(
        send_body(i64::MIN, "").unwrap(),
        "{\"chat_id\":-9223372036854775808,\"text\":\"\",\"parse_mode\":\"Markdown\"}"
    );
}

#[test]
fn send_uri_holds_token() {
    assert_eq!(send_uri("T0K"), "https://api.telegram.org/botT0K/sendMessage");
}

#[test]
fn round_keeps_search_order() {
    let hits = vec![hit("A", None, "1", "x", 0), hit("B", Some("https://b.org"), "2", "y", 0)];
    let mut round = Round::new(hits);
    assert_eq!(round.current().unwrap().title, "A");
    round.complete("first body");
    assert_eq!(round.current().unwrap().title, "B");
    round.complete("second body");
    assert!(round.current().is_none());
    let mut d = round.into_dispatcher();
    assert_eq!(
        d.next_message(),
        Some("- *[A]*(https://news.ycombinator.com/item?id=1)\n by x\nfirst body".to_string())
    );
    d.record(false);
    assert_eq!(
        d.next_message(),
        Some("- *[B]*(https://news.ycombinator.com/item?id=2)\n[source](https://b.org) by y\nsecond body".to_string())
    );
    d.record(true);
    assert!(d.is_done());
}

#[test]
fn round_over_no_hits_sends_nothing() {
    let round = Round::new(search_hits(None));
    assert!(round.current().is_none());
    let d = round.into_dispatcher();
    assert!(d.is_done());
    assert_eq!(d.attempted(), 0);
}
