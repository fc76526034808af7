//! A feed document: a channel, which supplies everything but the entries,
//! and the entries themselves.

use vstd::prelude::*;
use crate::entry::{Entry, EntryView, item_guid};

verus! {

/// `rss::Channel`, carried through unread.
#[verifier::external_type_specification]
#[verifier::external_body]
pub struct ExChannel(rss::Channel);

/// `rss::Error`, told apart from success and turned into text only.
#[verifier::external_type_specification]
#[verifier::external_body]
pub struct ExError(rss::Error);

/// The items that a channel holds, in document order.
pub uninterp spec fn channel_items(channel: rss::Channel) -> Seq<rss::Item>;

/// The channel that has the given items, and everything else as `channel` has it.
pub uninterp spec fn channel_with_items(channel: rss::Channel, items: Seq<rss::Item>) -> rss::Channel;

/// The channel that the bytes of a feed document describe, if they describe one.
pub uninterp spec fn parsed_channel(bytes: Seq<u8>) -> Option<rss::Channel>;

/// The bytes of the document that a channel is written out as, indented by
/// two spaces, if it can be written.
pub uninterp spec fn rendered_channel(channel: rss::Channel) -> Option<Seq<u8>>;

/// Why a document could not be read or written, in words.
pub enum FeedError {
    /// The bytes are not a feed document.
    Parse(String),
    /// The document could not be written out.
    Render(String),
}

impl FeedError {
    /// The text that says why.
    pub fn into_text(self) -> (text: String)
        ensures
            text == match self {
                FeedError::Parse(t) => t,
                FeedError::Render(t) => t,
            },
    {
        match self {
            FeedError::Parse(t) => t,
            FeedError::Render(t) => t,
        }
    }
}

/// A feed document.
pub struct Feed {
    /// The channel that the feed was read from. Its own item list is not
    /// read again: `entries` stands for it.
    pub channel: rss::Channel,
    /// The entries, in document order.
    pub entries: Vec<Entry>,
}

/// What a feed is to the contracts.
pub struct FeedView {
    pub channel: rss::Channel,
    pub entries: Seq<EntryView>,
}

/// The views of a sequence of entries.
pub open spec fn entry_views(entries: Seq<Entry>) -> Seq<EntryView> {
    entries.map_values(|e: Entry| e@)
}

impl View for Feed {
    type V = FeedView;

    open spec fn view(&self) -> FeedView {
        FeedView { channel: self.channel, entries: entry_views(self.entries@) }
    }
}

/// The entries that stand for a sequence of items: each under its own identifier.
pub open spec fn entries_of(items: Seq<rss::Item>) -> Seq<EntryView> {
    items.map_values(|item: rss::Item| EntryView { guid: item_guid(item), item: item })
}

/// The items of a sequence of entries.
pub open spec fn items_of(entries: Seq<EntryView>) -> Seq<rss::Item> {
    entries.map_values(|e: EntryView| e.item)
}

/// The feed that a channel is read as.
pub open spec fn feed_of(channel: rss::Channel) -> FeedView {
    FeedView { channel: channel, entries: entries_of(channel_items(channel)) }
}

/// The channel that a feed is written as: its channel, with the items of its entries.
pub open spec fn document(feed: FeedView) -> rss::Channel {
    channel_with_items(feed.channel, items_of(feed.entries))
}

/// Calls `rss::Channel::read_from` on a byte slice. The contract claims that
/// the outcome depends on the bytes alone: the same bytes give the same
/// channel, or fail, every time. Nested extension elements are read by
/// recursion; that the stack suffices is taken for granted, as it is of
/// memory.
#[verifier::external_body]
fn read_channel(bytes: &[u8]) -> (r: Result<rss::Channel, rss::Error>)
    ensures
        match r {
            Ok(channel) => parsed_channel(bytes@) == Some(channel),
            Err(_) => parsed_channel(bytes@) is None,
        },
{
    rss::Channel::read_from(bytes)
}

/// Calls `rss::Channel::items` and copies the slice. The contract claims that
/// the copy holds the channel's items, in order.
#[verifier::external_body]
fn copy_items(channel: &rss::Channel) -> (items: Vec<rss::Item>)
    ensures
        items@ == channel_items(*channel),
{
    channel.items().to_vec()
}

/// Calls `rss::Channel::set_items`. The contract claims that the channel
/// afterwards depends on the channel before and on the items given alone,
/// and that it holds the items given.
#[verifier::external_body]
fn replace_items(channel: &mut rss::Channel, items: Vec<rss::Item>)
    ensures
        *final(channel) == channel_with_items(*old(channel), items@),
        channel_items(*final(channel)) == items@,
{
    channel.set_items(items)
}

/// Calls `rss::Channel::pretty_write_to` with a `Vec<u8>` as the writer, a
/// space as the indentation character and a width of two. The contract
/// claims that the outcome depends on the channel alone.
#[verifier::external_body]
fn write_channel(channel: &rss::Channel) -> (r: Result<Vec<u8>, rss::Error>)
    ensures
        match r {
            Ok(bytes) => rendered_channel(*channel) == Some(bytes@),
            Err(_) => rendered_channel(*channel) is None,
        },
{
    channel.pretty_write_to(Vec::new(), b' ', 2)
}

/// Calls `to_string` on an `rss::Error`. Nothing is claimed of the text.
#[verifier::external_body]
fn error_text(error: &rss::Error) -> (text: String) {
    error.to_string()
}

impl Feed {
    /// The feed that stands for a channel: one entry for each of its items,
    /// in order, each under the item's own identifier.
    pub fn from_channel(channel: rss::Channel) -> (feed: Feed)
        ensures
            feed@ == feed_of(channel),
    {
        let items = copy_items(&channel);
        let mut entries: Vec<Entry> = Vec::new();
        for item in it: items
            invariant
                it.seq() == channel_items(channel),
                entries@.len() == it.index(),
                forall|j: int|
                    0 <= j < entries@.len() ==> (#[trigger] entries@[j])@ == entries_of(
                        it.seq(),
                    )[j],
        {
            entries.push(Entry::new(item));
        }
        assert(entry_views(entries@) =~= entries_of(channel_items(channel)));
        Feed { channel, entries }
    }

    /// The channel to write out: the feed's channel, holding the items of
    /// the feed's entries in place of its own.
    pub fn into_channel(self) -> (channel: rss::Channel)
        ensures
            channel == document(self@),
            channel_items(channel) == items_of(self@.entries),
    {
        let mut channel = self.channel;
        let mut items: Vec<rss::Item> = Vec::new();
        for entry in it: self.entries
            invariant
                it.seq() == self.entries@,
                items@.len() == it.index(),
                forall|j: int| 0 <= j < items@.len() ==> #[trigger] items@[j] == it.seq()[j].item,
        {
            items.push(entry.item);
        }
        assert(items@ =~= items_of(self@.entries));
        replace_items(&mut channel, items);
        channel
    }
}

/// Reads a feed document.
pub fn parse(bytes: &[u8]) -> (r: Result<Feed, FeedError>)
    ensures
        match parsed_channel(bytes@) {
            Some(channel) => r matches Ok(feed) && feed@ == feed_of(channel),
            None => r matches Err(FeedError::Parse(_)),
        },
{
    match read_channel(bytes) {
        Ok(channel) => Ok(Feed::from_channel(channel)),
        Err(error) => Err(FeedError::Parse(error_text(&error))),
    }
}

/// Writes a feed out as a document.
pub fn render(feed: Feed) -> (r: Result<Vec<u8>, FeedError>)
    ensures
        match rendered_channel(document(feed@)) {
            Some(bytes) => r matches Ok(out) && out@ == bytes,
            None => r matches Err(FeedError::Render(_)),
        },
{
    let channel = feed.into_channel();
    match write_channel(&channel) {
        Ok(bytes) => Ok(bytes),
        Err(error) => Err(FeedError::Render(error_text(&error))),
    }
}

} // verus!
