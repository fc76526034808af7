//! Merging a primary feed with additional sources.

use vstd::prelude::*;
use vstd::hash_set::StringHashSet;
use crate::entry::{Entry, EntryView};
use crate::feed::{Feed, FeedView, entry_views};
use crate::model::{
    MergedView, fresh, identifiers, incoming, lemma_fresh_add, lemma_identifiers_add,
    lemma_identifiers_push, lemma_unidentified_add, lemma_unidentified_bound,
    lemma_unidentified_push, merged, newest_channel, unidentified,
};

verus! {

/// The result of a merge.
pub struct Merged {
    /// The merged feed, or the primary feed where nothing was new.
    pub feed: Feed,
    /// Whether any new entry was found. Where none was, there is nothing to
    /// write out.
    pub changed: bool,
    /// Whether the cap cut the merged entries short.
    pub truncated: bool,
    /// The number of entries without an identifier, over the primary feed
    /// and the sources that were loaded.
    pub missing: u128,
}

impl View for Merged {
    type V = MergedView;

    open spec fn view(&self) -> MergedView {
        MergedView {
            feed: self.feed@,
            changed: self.changed,
            truncated: self.truncated,
            missing: self.missing as nat,
        }
    }
}

/// The views of a sequence of sources: a source that could not be loaded
/// is `None`.
pub open spec fn source_views(additional: Seq<Option<Feed>>) -> Seq<Option<FeedView>> {
    additional.map_values(
        |source: Option<Feed>|
            match source {
                Some(feed) => Some(feed@),
                None => None,
            },
    )
}

/// The identifiers that the entries carry, and the number of entries that
/// carry none.
fn survey(entries: &Vec<Entry>) -> (r: (StringHashSet, usize))
    ensures
        r.0@ == identifiers(entry_views(entries@)),
        r.1 == unidentified(entry_views(entries@)),
{
    let ghost views = entry_views(entries@);
    let mut known = StringHashSet::new();
    let mut missing: usize = 0;
    proof {
        assert(identifiers(views.take(0)) =~= Set::<Seq<char>>::empty());
        lemma_unidentified_bound(views.take(0));
    }
    for i in 0..entries.len()
        invariant
            views == entry_views(entries@),
            known@ == identifiers(views.take(i as int)),
            missing == unidentified(views.take(i as int)),
    {
        proof {
            assert(views.take(i + 1) =~= views.take(i as int).push(views[i as int]));
            lemma_identifiers_push(views.take(i as int), views[i as int]);
            lemma_unidentified_push(views.take(i as int), views[i as int]);
            lemma_unidentified_bound(views.take(i as int));
        }
        match &entries[i].guid {
            Some(id) => {
                known.insert(id.clone());
            },
            None => {
                missing = missing + 1;
            },
        }
    }
    proof {
        assert(views.take(entries@.len() as int) =~= views);
    }
    (known, missing)
}

/// Takes the entries of one source in: each new one is put at the end of
/// `extra` and its identifier into `known`. Returns the number of entries
/// that carry no identifier.
fn absorb(known: &mut StringHashSet, extra: &mut Vec<Entry>, entries: Vec<Entry>) -> (missing: usize)
    ensures
        entry_views(final(extra)@) == entry_views(old(extra)@) + fresh(
            old(known)@,
            entry_views(entries@),
        ),
        final(known)@ == old(known)@.union(identifiers(entry_views(entries@))),
        missing == unidentified(entry_views(entries@)),
{
    let ghost views = entry_views(entries@);
    let ghost before = entry_views(extra@);
    let ghost known_before = known@;
    let mut missing: usize = 0;
    proof {
        assert(identifiers(views.take(0)) =~= Set::<Seq<char>>::empty());
        assert(known@ =~= known_before.union(identifiers(views.take(0))));
        assert(before + fresh(known_before, views.take(0)) =~= before);
        lemma_unidentified_bound(views.take(0));
        assert(entries@.len() == entries.len());
    }
    for entry in it: entries
        invariant
            it.seq() == entries@,
            entries@.len() <= usize::MAX,
            views == entry_views(entries@),
            entry_views(extra@) == before + fresh(known_before, views.take(it.index() as int)),
            known@ == known_before.union(identifiers(views.take(it.index() as int))),
            missing == unidentified(views.take(it.index() as int)),
    {
        let ghost seen = views.take(it.index() as int);
        let ghost longer = views.take(it.index() + 1);
        proof {
            assert(entry@ == views[it.index() as int]);
            assert(longer =~= seen.push(entry@));
            assert(longer.drop_last() =~= seen);
            lemma_identifiers_push(seen, entry@);
            lemma_unidentified_push(seen, entry@);
            lemma_unidentified_bound(seen);
        }
        let take = match &entry.guid {
            Some(id) => {
                if known.contains(id.as_str()) {
                    false
                } else {
                    known.insert(id.clone());
                    true
                }
            },
            None => {
                missing = missing + 1;
                false
            },
        };
        if take {
            let ghost shorter = extra@;
            extra.push(entry);
            proof {
                assert(entry_views(extra@) =~= entry_views(shorter).push(entry@));
                assert(before + fresh(known_before, longer) =~= (before + fresh(
                    known_before,
                    seen,
                )).push(entry@));
            }
        }
        proof {
            assert(known@ =~= known_before.union(identifiers(longer)));
        }
    }
    proof {
        assert(views.take(entries@.len() as int) =~= views);
    }
    missing
}

/// Merges the additional sources into the primary feed.
///
/// The sources are taken in the order given; one that could not be loaded
/// is `None` and is passed over. Entries of the sources that carry no
/// identifier, or one that the primary feed or an earlier entry carries,
/// are left out. Where nothing is left the primary feed comes back as it
/// is. Otherwise the merged feed holds the new entries, then the primary
/// feed's, cut to the first `max_entries` where that is not zero, under the
/// channel of the last source that was loaded.
pub fn merge(primary: Feed, additional: Vec<Option<Feed>>, max_entries: usize) -> (r: Merged)
    ensures
        r@ == merged(primary@, source_views(additional@), max_entries as nat),
{
    let ghost sources = source_views(additional@);
    let Feed { channel: primary_channel, entries: primary_entries } = primary;
    let mut primary_entries = primary_entries;
    let ghost old_entries = entry_views(primary_entries@);
    let (mut known, counted) = survey(&primary_entries);
    let mut missing: u128 = counted as u128;
    let mut extra: Vec<Entry> = Vec::new();
    let mut newest: Option<rss::Channel> = None;
    proof {
        assert(sources.take(0) =~= Seq::<Option<FeedView>>::empty());
        assert(identifiers(Seq::<EntryView>::empty()) =~= Set::<Seq<char>>::empty());
        assert(known@ =~= identifiers(old_entries).union(identifiers(incoming(sources.take(0)))));
        assert(entry_views(extra@) =~= fresh(identifiers(old_entries), incoming(sources.take(0))));
        lemma_unidentified_bound(Seq::<EntryView>::empty());
        assert(additional@.len() == additional.len());
    }
    for source in it: additional
        invariant
            it.seq() == additional@,
            additional@.len() <= usize::MAX,
            sources == source_views(additional@),
            entry_views(extra@) == fresh(
                identifiers(old_entries),
                incoming(sources.take(it.index() as int)),
            ),
            known@ == identifiers(old_entries).union(
                identifiers(incoming(sources.take(it.index() as int))),
            ),
            missing == unidentified(old_entries) + unidentified(
                incoming(sources.take(it.index() as int)),
            ),
            missing <= (it.index() + 1) * usize::MAX,
            match newest {
                Some(channel) => channel,
                None => primary_channel,
            } == newest_channel(primary_channel, sources.take(it.index() as int)),
    {
        let ghost done = sources.take(it.index() as int);
        let ghost next = sources.take(it.index() + 1);
        proof {
            assert(next.drop_last() =~= done);
            assert(next.last() == sources[it.index() as int]);
            assert((it.index() + 2) * usize::MAX == (it.index() + 1) * usize::MAX + usize::MAX)
                by (nonlinear_arith);
            assert((it.index() + 2) * usize::MAX <= u128::MAX) by (nonlinear_arith)
                requires
                    it.index() + 2 <= 0x1_0000_0000_0000_0000,
                    usize::MAX <= 0xffff_ffff_ffff_ffff,
            ;
        }
        match source {
            Some(feed) => {
                let ghost entries = entry_views(feed.entries@);
                proof {
                    assert(incoming(next) == incoming(done) + entries);
                    lemma_fresh_add(identifiers(old_entries), incoming(done), entries);
                    lemma_identifiers_add(incoming(done), entries);
                    lemma_unidentified_add(incoming(done), entries);
                }
                newest = Some(feed.channel);
                let counted = absorb(&mut known, &mut extra, feed.entries);
                missing = missing + counted as u128;
                proof {
                    assert(known@ =~= identifiers(old_entries).union(identifiers(incoming(next))));
                }
            },
            None => {
                proof {
                    assert(incoming(next) =~= incoming(done));
                }
            },
        }
    }
    proof {
        assert(sources.take(additional@.len() as int) =~= sources);
    }
    if extra.len() == 0 {
        return Merged {
            feed: Feed { channel: primary_channel, entries: primary_entries },
            changed: false,
            truncated: false,
            missing,
        };
    }
    let ghost new_entries = entry_views(extra@);
    extra.append(&mut primary_entries);
    proof {
        assert(entry_views(extra@) =~= new_entries + old_entries);
    }
    let ghost all = entry_views(extra@);
    let truncated = max_entries > 0 && extra.len() > max_entries;
    if truncated {
        extra.truncate(max_entries);
        proof {
            assert(entry_views(extra@) =~= all.take(max_entries as int));
        }
    }
    let channel = match newest {
        Some(channel) => channel,
        None => primary_channel,
    };
    Merged { feed: Feed { channel, entries: extra }, changed: true, truncated, missing }
}

} // verus!
