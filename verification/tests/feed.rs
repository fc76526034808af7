use rss_combine::entry::Entry;
use rss_combine::feed::{parse, render, Feed, FeedError};

fn item(id: Option<&str>, title: &str) -> rss::Item {
    let mut item = rss::Item::default();
    item.set_title(title.to_string());
    if let Some(id) = id {
        let mut guid = rss::Guid::default();
        guid.set_value(id);
        item.set_guid(guid);
    }
    item
}

const SMALL: &str = "<?xml version=\"1.0\" encoding=\"utf-8\"?>\
<rss version=\"2.0\"><channel><title>News</title><link>http://example.org/</link>\
<description>All of it</description>\
<item><title>one</title><guid>urn:1</guid></item>\
<item><title>two</title></item>\
<item><title>three</title><guid isPermaLink=\"false\">urn:3</guid></item>\
</channel></rss>";

#[test]
fn entry_takes_the_identifier_of_its_item() {
    let entry = Entry::new(item(Some("urn:a"), "a"));
    assert_eq!(entry.guid, Some("urn:a".to_string()));
    assert_eq!(entry.item, item(Some("urn:a"), "a"));
}

#[test]
fn entry_of_an_item_without_guid_has_no_identifier() {
    let entry = Entry::new(item(None, "a"));
    assert_eq!(entry.guid, None);
    assert_eq!(entry.item.title(), Some("a"));
}

#[test]
fn feed_of_a_channel_has_one_entry_for_each_item() {
    let mut channel = rss::Channel::default();
    channel.set_title("T");
    channel.set_items(vec![item(Some("x"), "1"), item(None, "2"), item(Some("z"), "3")]);
    let feed = Feed::from_channel(channel.clone());
    assert_eq!(feed.channel, channel);
    assert_eq!(feed.entries.len(), 3);
    assert_eq!(feed.entries[0].guid, Some("x".to_string()));
    assert_eq!(feed.entries[1].guid, None);
    assert_eq!(feed.entries[2].guid, Some("z".to_string()));
    assert_eq!(feed.entries[0].item, item(Some("x"), "1"));
    assert_eq!(feed.entries[1].item, item(None, "2"));
    assert_eq!(feed.entries[2].item, item(Some("z"), "3"));
}

#[test]
fn channel_of_a_feed_holds_the_items_of_its_entries() {
    let mut channel = rss::Channel::default();
    channel.set_title("T");
    channel.set_items(vec![item(Some("stale"), "stale")]);
    let feed = Feed {
        channel,
        entries: vec![Entry::new(item(Some("b"), "2")), Entry::new(item(Some("a"), "1"))],
    };
    let out = feed.into_channel();
    assert_eq!(out.title(), "T");
    assert_eq!(out.items().len(), 2);
    assert_eq!(out.items()[0], item(Some("b"), "2"));
    assert_eq!(out.items()[1], item(Some("a"), "1"));
}

#[test]
fn parse_reads_channel_and_entries() {
    let feed = parse(SMALL.as_bytes()).ok().unwrap();
    assert_eq!(feed.channel.title(), "News");
    assert_eq!(feed.channel.link(), "http://example.org/");
    assert_eq!(feed.channel.description(), "All of it");
    assert_eq!(feed.entries.len(), 3);
    assert_eq!(feed.entries[0].guid, Some("urn:1".to_string()));
    assert_eq!(feed.entries[1].guid, None);
    assert_eq!(feed.entries[2].guid, Some("urn:3".to_string()));
    assert_eq!(feed.entries[1].item.title(), Some("two"));
}

#[test]
fn parse_refuses_what_is_no_feed() {
    match parse(b"<html><body>nothing</body></html>") {
        Err(FeedError::Parse(text)) => assert!(!text.is_empty()),
        _ => panic!("a document without an rss element was read as a feed"),
    }
}

#[test]
fn parse_refuses_empty_input() {
    assert!(matches!(parse(b""), Err(FeedError::Parse(_))));
}

#[test]
fn parse_refuses_a_document_cut_short() {
    let cut = &SMALL.as_bytes()[..SMALL.len() / 2];
    assert!(matches!(parse(cut), Err(FeedError::Parse(_))));
}

#[test]
fn error_text_is_handed_out() {
    let error = FeedError::Parse("why".to_string());
    assert_eq!(error.into_text(), "why");
    let error = FeedError::Render("because".to_string());
    assert_eq!(error.into_text(), "because");
}

#[test]
fn render_indents_by_two_spaces() {
    let feed = parse(SMALL.as_bytes()).ok().unwrap();
    let bytes = render(feed).ok().unwrap();
    let text = String::from_utf8(bytes).unwrap();
    assert!(text.starts_with("<?xml version=\"1.0\" encoding=\"utf-8\"?>\n<rss version=\"2.0\">\n  <channel>\n    <title>News</title>\n"));
    assert!(text.contains("\n    <item>\n      <title>one</title>\n"));
    assert!(text.ends_with("\n  </channel>\n</rss>"));
}

#[test]
fn render_writes_the_entries_and_not_the_channel_s_own_items() {
    let mut feed = parse(SMALL.as_bytes()).ok().unwrap();
    feed.entries.remove(1);
    feed.entries.reverse();
    let bytes = render(feed).ok().unwrap();
    let back = parse(&bytes).ok().unwrap();
    assert_eq!(back.channel.title(), "News");
    assert_eq!(back.entries.len(), 2);
    assert_eq!(back.entries[0].guid, Some("urn:3".to_string()));
    assert_eq!(back.entries[1].guid, Some("urn:1".to_string()));
    assert_eq!(back.entries[0].item.title(), Some("three"));
    assert_eq!(back.entries[0].item.guid().unwrap().is_permalink(), false);
}

#[test]
fn render_then_parse_gives_the_feed_back() {
    let feed = parse(SMALL.as_bytes()).ok().unwrap();
    let items: Vec<rss::Item> = feed.entries.iter().map(|e| e.item.clone()).collect();
    let bytes = render(feed).ok().unwrap();
    let back = parse(&bytes).ok().unwrap();
    let back_items: Vec<rss::Item> = back.entries.iter().map(|e| e.item.clone()).collect();
    assert_eq!(items, back_items);
}
