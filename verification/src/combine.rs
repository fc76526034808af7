//! From documents to a document: the primary feed and the additional
//! sources come as bytes, and the merged feed leaves as bytes.

use vstd::prelude::*;
use crate::feed::{Feed, FeedError, FeedView, document, feed_of, parse, parsed_channel, render, rendered_channel};
use crate::guarantees::unloaded_source_is_without_effect;
use crate::merge::{Merged, merge, source_views};
use crate::model::{MergedView, merged};

verus! {

/// What became of one additional source.
pub enum SourceStatus {
    /// It could not be read: there were no bytes to look at.
    Unreadable,
    /// Its bytes are not a feed document; the text says why.
    Unparseable(String),
    /// It was loaded and its entries were taken in.
    Loaded,
}

/// The outcome of combining documents.
pub struct Combined {
    /// The merged document, or `None` where no entry was new and there is
    /// nothing to write.
    pub output: Option<Vec<u8>>,
    /// What became of each additional source, in the order given.
    pub statuses: Vec<SourceStatus>,
    /// Whether the cap cut the merged entries short.
    pub truncated: bool,
    /// The number of entries without an identifier, over the primary feed
    /// and the sources that were loaded.
    pub missing: u128,
}

/// The feed that a source is loaded as: none where it could not be read or
/// its bytes are not a feed document.
pub open spec fn loaded(source: Option<Vec<u8>>) -> Option<FeedView> {
    match source {
        Some(bytes) => match parsed_channel(bytes@) {
            Some(channel) => Some(feed_of(channel)),
            None => None,
        },
        None => None,
    }
}

/// The feeds that the sources are loaded as, in the order given.
pub open spec fn loaded_all(sources: Seq<Option<Vec<u8>>>) -> Seq<Option<FeedView>> {
    sources.map_values(|source: Option<Vec<u8>>| loaded(source))
}

/// Whether `status` says what became of `source`.
pub open spec fn tells(status: SourceStatus, source: Option<Vec<u8>>) -> bool {
    match source {
        None => status is Unreadable,
        Some(bytes) => if parsed_channel(bytes@) is Some {
            status is Loaded
        } else {
            status is Unparseable
        },
    }
}

/// Whether the statuses say, one for one, what became of the sources.
pub open spec fn tell_all(statuses: Seq<SourceStatus>, sources: Seq<Option<Vec<u8>>>) -> bool {
    &&& statuses.len() == sources.len()
    &&& forall|i: int| 0 <= i < statuses.len() ==> tells(#[trigger] statuses[i], sources[i])
}

/// Whether `combined` reports the outcome `outcome` for the given sources.
pub open spec fn reports(combined: Combined, outcome: MergedView, sources: Seq<Option<Vec<u8>>>) -> bool {
    &&& tell_all(combined.statuses@, sources)
    &&& combined.truncated == outcome.truncated
    &&& combined.missing == outcome.missing
}

/// Loads each source that was read. A source that could not be read, or
/// whose bytes are not a feed document, gives no feed and is reported.
pub fn load(sources: &Vec<Option<Vec<u8>>>) -> (r: (Vec<Option<Feed>>, Vec<SourceStatus>))
    ensures
        source_views(r.0@) == loaded_all(sources@),
        tell_all(r.1@, sources@),
{
    let mut feeds: Vec<Option<Feed>> = Vec::new();
    let mut statuses: Vec<SourceStatus> = Vec::new();
    for i in 0..sources.len()
        invariant
            feeds@.len() == i,
            statuses@.len() == i,
            forall|j: int| 0 <= j < i ==> source_views(feeds@)[j] == loaded(#[trigger] sources@[j]),
            forall|j: int| 0 <= j < i ==> tells(#[trigger] statuses@[j], sources@[j]),
    {
        match &sources[i] {
            Some(bytes) => match parse(bytes.as_slice()) {
                Ok(feed) => {
                    feeds.push(Some(feed));
                    statuses.push(SourceStatus::Loaded);
                },
                Err(error) => {
                    feeds.push(None);
                    statuses.push(SourceStatus::Unparseable(error.into_text()));
                },
            },
            None => {
                feeds.push(None);
                statuses.push(SourceStatus::Unreadable);
            },
        }
    }
    proof {
        assert(source_views(feeds@) =~= loaded_all(sources@));
    }
    (feeds, statuses)
}

/// Combines the primary document with the additional sources.
///
/// A primary document that is not a feed document is an error. Each source
/// is either bytes that were read or `None`; one that cannot be loaded is
/// passed over and reported. Where no entry is new there is no output.
/// Otherwise the output is the merged feed, written out; that it cannot be
/// written is an error.
pub fn combine(primary: &[u8], additional: &Vec<Option<Vec<u8>>>, max_entries: usize) -> (r: Result<
    Combined,
    FeedError,
>)
    ensures
        match parsed_channel(primary@) {
            None => r matches Err(FeedError::Parse(_)),
            Some(channel) => {
                let outcome = merged(feed_of(channel), loaded_all(additional@), max_entries as nat);
                if !outcome.changed {
                    r matches Ok(combined) && combined.output is None && reports(
                        combined,
                        outcome,
                        additional@,
                    )
                } else {
                    match rendered_channel(document(outcome.feed)) {
                        Some(bytes) => r matches Ok(combined) && combined.output matches Some(out)
                            && out@ == bytes && reports(combined, outcome, additional@),
                        None => r matches Err(FeedError::Render(_)),
                    }
                }
            },
        },
{
    let primary_feed = match parse(primary) {
        Ok(feed) => feed,
        Err(error) => {
            return Err(error);
        },
    };
    let (feeds, statuses) = load(additional);
    let Merged { feed, changed, truncated, missing } = merge(primary_feed, feeds, max_entries);
    if !changed {
        return Ok(Combined { output: None, statuses, truncated, missing });
    }
    match render(feed) {
        Ok(bytes) => Ok(Combined { output: Some(bytes), statuses, truncated, missing }),
        Err(error) => Err(error),
    }
}

/// A source that could not be read, or whose bytes are not a feed
/// document, leaves the outcome as it would be without that source,
/// wherever it stands among the sources.
pub proof fn unusable_source_is_without_effect(
    primary: FeedView,
    additional: Seq<Option<Vec<u8>>>,
    at: int,
    source: Option<Vec<u8>>,
    max: nat,
)
    requires
        0 <= at <= additional.len(),
        loaded(source) is None,
    ensures
        merged(primary, loaded_all(additional.insert(at, source)), max) == merged(
            primary,
            loaded_all(additional),
            max,
        ),
{
    assert(loaded_all(additional.insert(at, source)) =~= loaded_all(additional).insert(at, None));
    unloaded_source_is_without_effect(primary, loaded_all(additional), at, max);
}

} // verus!
