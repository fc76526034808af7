use rss_combine::combine::{combine, load, Combined, SourceStatus};
use rss_combine::feed::FeedError;

fn document(title: &str, items: &[(Option<&str>, &str)]) -> Vec<u8> {
    let mut text = String::from("<?xml version=\"1.0\" encoding=\"utf-8\"?>\n<rss version=\"2.0\">\n<channel>\n");
    text.push_str(&format!("<title>{}</title>\n<link>http://example.org/{}</link>\n", title, title));
    text.push_str("<description>none</description>\n");
    for (id, name) in items {
        text.push_str(&format!("<item><title>{}</title>", name));
        if let Some(id) = id {
            text.push_str(&format!("<guid>{}</guid>", id));
        }
        text.push_str("</item>\n");
    }
    text.push_str("</channel>\n</rss>\n");
    text.into_bytes()
}

fn read(bytes: &[u8]) -> rss::Channel {
    rss::Channel::read_from(bytes).unwrap()
}

fn ids(channel: &rss::Channel) -> Vec<Option<String>> {
    channel.items().iter().map(|i| i.guid().map(|g| g.value().to_string())).collect()
}

fn some(ids: &[&str]) -> Vec<Option<String>> {
    ids.iter().map(|id| Some(id.to_string())).collect()
}

fn done(r: Result<Combined, FeedError>) -> Combined {
    match r {
        Ok(combined) => combined,
        Err(error) => panic!("{}", error.into_text()),
    }
}

#[test]
fn combine_puts_new_entries_first() {
    let primary = document("primary", &[(Some("A"), "a"), (Some("B"), "b")]);
    let other = document("other", &[(Some("B"), "b again"), (Some("C"), "c")]);
    let combined = done(combine(&primary, &vec![Some(other)], 0));
    assert!(!combined.truncated);
    assert_eq!(combined.missing, 0);
    assert!(matches!(combined.statuses[..], [SourceStatus::Loaded]));
    let out = read(&combined.output.unwrap());
    assert_eq!(ids(&out), some(&["C", "A", "B"]));
    assert_eq!(out.title(), "other");
    assert_eq!(out.link(), "http://example.org/other");
}

#[test]
fn combine_with_cap_of_two() {
    let primary = document("primary", &[(Some("A"), "a"), (Some("B"), "b")]);
    let other = document("other", &[(Some("B"), "b again"), (Some("C"), "c")]);
    let combined = done(combine(&primary, &vec![Some(other)], 2));
    assert!(combined.truncated);
    let out = read(&combined.output.unwrap());
    assert_eq!(ids(&out), some(&["C", "A"]));
}

#[test]
fn combine_with_itself_writes_nothing() {
    let primary = document("primary", &[(Some("A"), "a"), (None, "n"), (Some("B"), "b")]);
    let combined = done(combine(&primary, &vec![Some(primary.clone())], 0));
    assert!(combined.output.is_none());
    assert!(!combined.truncated);
    assert_eq!(combined.missing, 2);
    assert!(matches!(combined.statuses[..], [SourceStatus::Loaded]));
}

#[test]
fn combine_with_an_unreadable_source_alone_writes_nothing() {
    let primary = document("primary", &[(Some("A"), "a")]);
    let combined = done(combine(&primary, &vec![None], 0));
    assert!(combined.output.is_none());
    assert_eq!(combined.missing, 0);
    assert!(matches!(combined.statuses[..], [SourceStatus::Unreadable]));
}

#[test]
fn combine_passes_over_an_unreadable_source() {
    let primary = document("primary", &[(Some("A"), "a")]);
    let other = document("other", &[(Some("C"), "c"), (None, "n")]);
    let with = done(combine(&primary, &vec![None, Some(other.clone()), None], 0));
    let without = done(combine(&primary, &vec![Some(other)], 0));
    assert!(matches!(
        with.statuses[..],
        [SourceStatus::Unreadable, SourceStatus::Loaded, SourceStatus::Unreadable]
    ));
    assert_eq!(with.output, without.output);
    assert_eq!(with.missing, 1);
    assert_eq!(with.missing, without.missing);
    assert_eq!(with.truncated, without.truncated);
    assert_eq!(ids(&read(&with.output.unwrap())), some(&["C", "A"]));
}

#[test]
fn combine_passes_over_an_unparseable_source() {
    let primary = document("primary", &[(Some("A"), "a")]);
    let good = document("good", &[(Some("C"), "c")]);
    let bad = b"<rss><channel><title>broken".to_vec();
    let with = done(combine(&primary, &vec![Some(good.clone()), Some(bad)], 0));
    let without = done(combine(&primary, &vec![Some(good)], 0));
    assert_eq!(with.statuses.len(), 2);
    assert!(matches!(with.statuses[0], SourceStatus::Loaded));
    match &with.statuses[1] {
        SourceStatus::Unparseable(text) => assert!(!text.is_empty()),
        _ => panic!("the broken source was not reported"),
    }
    assert_eq!(with.output, without.output);
    let out = read(&with.output.unwrap());
    assert_eq!(out.title(), "good");
    assert_eq!(ids(&out), some(&["C", "A"]));
}

#[test]
fn combine_refuses_an_unparseable_primary() {
    let other = document("other", &[(Some("C"), "c")]);
    let r = combine(b"not a feed", &vec![Some(other)], 0);
    assert!(matches!(r, Err(FeedError::Parse(_))));
}

#[test]
fn combine_without_sources_writes_nothing() {
    let primary = document("primary", &[(Some("A"), "a")]);
    let combined = done(combine(&primary, &Vec::new(), 3));
    assert!(combined.output.is_none());
    assert!(combined.statuses.is_empty());
}

#[test]
fn combine_counts_entries_without_identifier() {
    let primary = document("primary", &[(None, "p"), (Some("A"), "a")]);
    let first = document("first", &[(None, "x"), (Some("B"), "b"), (None, "y")]);
    let second = document("second", &[(None, "z")]);
    let combined = done(combine(&primary, &vec![Some(first), Some(second)], 0));
    assert_eq!(combined.missing, 4);
    let out = read(&combined.output.unwrap());
    assert_eq!(
        ids(&out),
        vec![Some("B".to_string()), None, Some("A".to_string())]
    );
    assert_eq!(out.items()[1].title(), Some("p"));
    assert_eq!(out.title(), "second");
}

#[test]
fn combine_writes_indented_output() {
    let primary = document("primary", &[(Some("A"), "a")]);
    let other = document("other", &[(Some("C"), "c")]);
    let combined = done(combine(&primary, &vec![Some(other)], 0));
    let text = String::from_utf8(combined.output.unwrap()).unwrap();
    assert!(text.contains("\n  <channel>\n    <title>other</title>\n"));
    assert!(text.contains("\n    <item>\n      <title>c</title>\n"));
}

#[test]
fn load_reports_each_source() {
    let good = document("good", &[(Some("C"), "c"), (None, "n")]);
    let (feeds, statuses) = load(&vec![None, Some(good), Some(b"<rss>".to_vec())]);
    assert_eq!(feeds.len(), 3);
    assert_eq!(statuses.len(), 3);
    assert!(feeds[0].is_none());
    assert!(matches!(statuses[0], SourceStatus::Unreadable));
    let feed = feeds[1].as_ref().unwrap();
    assert_eq!(feed.channel.title(), "good");
    assert_eq!(feed.entries.len(), 2);
    assert_eq!(feed.entries[0].guid, Some("C".to_string()));
    assert_eq!(feed.entries[1].guid, None);
    assert!(matches!(statuses[1], SourceStatus::Loaded));
    assert!(feeds[2].is_none());
    assert!(matches!(statuses[2], SourceStatus::Unparseable(_)));
}
