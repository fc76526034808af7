//! What merging means, over sequences of entries.
//!
//! The additional sources are taken in the order given. Those that could
//! not be loaded contribute nothing. Of the entries of the others, laid end
//! to end, the new ones are kept: those that carry an identifier which
//! neither the primary feed nor an earlier entry carries. The merged feed
//! holds the new entries first and the primary feed's entries after them.

use vstd::prelude::*;
use crate::entry::EntryView;
use crate::feed::FeedView;

verus! {

/// Whether some entry of the sequence carries the identifier `id`.
pub open spec fn carries(entries: Seq<EntryView>, id: Seq<char>) -> bool {
    exists|i: int| 0 <= i < entries.len() && (#[trigger] entries[i]).guid == Some(id)
}

/// The identifiers that the entries of a sequence carry.
pub open spec fn identifiers(entries: Seq<EntryView>) -> Set<Seq<char>> {
    Set::new(|id: Seq<char>| carries(entries, id))
}

/// The number of entries that carry no identifier.
pub open spec fn unidentified(entries: Seq<EntryView>) -> nat {
    entries.filter(|e: EntryView| e.guid is None).len()
}

/// Whether `entry`, met after the entries `earlier`, is new: it carries an
/// identifier that is neither known beforehand nor carried by one of `earlier`.
pub open spec fn is_new(known: Set<Seq<char>>, earlier: Seq<EntryView>, entry: EntryView) -> bool {
    entry.guid matches Some(id) && !known.contains(id) && !carries(earlier, id)
}

/// The new entries among `incoming`, in the order in which they come.
pub open spec fn fresh(known: Set<Seq<char>>, incoming: Seq<EntryView>) -> Seq<EntryView>
    decreases incoming.len(),
{
    if incoming.len() == 0 {
        Seq::empty()
    } else if is_new(known, incoming.drop_last(), incoming.last()) {
        fresh(known, incoming.drop_last()).push(incoming.last())
    } else {
        fresh(known, incoming.drop_last())
    }
}

/// The entries of the sources that were loaded, laid end to end.
pub open spec fn incoming(additional: Seq<Option<FeedView>>) -> Seq<EntryView>
    decreases additional.len(),
{
    if additional.len() == 0 {
        Seq::empty()
    } else {
        incoming(additional.drop_last()) + match additional.last() {
            Some(feed) => feed.entries,
            None => Seq::empty(),
        }
    }
}

/// The channel of the last source that was loaded, or `fallback` if none was.
pub open spec fn newest_channel(fallback: rss::Channel, additional: Seq<Option<FeedView>>) -> rss::Channel
    decreases additional.len(),
{
    if additional.len() == 0 {
        fallback
    } else {
        match additional.last() {
            Some(feed) => feed.channel,
            None => newest_channel(fallback, additional.drop_last()),
        }
    }
}

/// The new entries that the additional sources bring to the primary entries.
pub open spec fn additions(primary: Seq<EntryView>, additional: Seq<Option<FeedView>>) -> Seq<EntryView> {
    fresh(identifiers(primary), incoming(additional))
}

/// The first `max` of the entries, or all of them where `max` is zero or
/// there are no more than `max`.
pub open spec fn capped(entries: Seq<EntryView>, max: nat) -> Seq<EntryView> {
    if exceeds(entries, max) {
        entries.take(max as int)
    } else {
        entries
    }
}

/// Whether a cap of `max` entries cuts the sequence short.
pub open spec fn exceeds(entries: Seq<EntryView>, max: nat) -> bool {
    max > 0 && entries.len() > max
}

/// The result of a merge.
pub struct MergedView {
    /// The merged feed, or the primary feed where nothing was new.
    pub feed: FeedView,
    /// Whether any new entry was found.
    pub changed: bool,
    /// Whether the cap cut the merged entries short.
    pub truncated: bool,
    /// The number of entries without an identifier, over the primary feed
    /// and the sources that were loaded.
    pub missing: nat,
}

/// The merge of the primary feed with the additional sources, capped at
/// `max` entries where `max` is not zero.
///
/// Where no entry is new the primary feed is returned as it is, uncapped.
/// Otherwise the new entries come first and the primary feed's entries
/// after them, and the channel is that of the last source that was loaded.
pub open spec fn merged(primary: FeedView, additional: Seq<Option<FeedView>>, max: nat) -> MergedView {
    let extra = additions(primary.entries, additional);
    let all = extra + primary.entries;
    let missing = unidentified(primary.entries) + unidentified(incoming(additional));
    if extra.len() == 0 {
        MergedView { feed: primary, changed: false, truncated: false, missing: missing }
    } else {
        MergedView {
            feed: FeedView {
                channel: newest_channel(primary.channel, additional),
                entries: capped(all, max),
            },
            changed: true,
            truncated: exceeds(all, max),
            missing: missing,
        }
    }
}

/// An entry put at the end adds its identifier, if it has one.
pub proof fn lemma_identifiers_push(entries: Seq<EntryView>, entry: EntryView)
    ensures
        identifiers(entries.push(entry)) == match entry.guid {
            Some(id) => identifiers(entries).insert(id),
            None => identifiers(entries),
        },
{
    let longer = entries.push(entry);
    assert forall|id: Seq<char>| carries(longer, id) <==> (carries(entries, id) || entry.guid == Some(
        id,
    )) by {
        if carries(longer, id) {
            let i = choose|i: int| 0 <= i < longer.len() && (#[trigger] longer[i]).guid == Some(id);
            if i < entries.len() {
                assert(entries[i].guid == Some(id));
            }
        }
        if carries(entries, id) {
            let i = choose|i: int| 0 <= i < entries.len() && (#[trigger] entries[i]).guid == Some(id);
            assert(longer[i].guid == Some(id));
        }
        if entry.guid == Some(id) {
            assert(longer[entries.len() as int].guid == Some(id));
        }
    }
    match entry.guid {
        Some(id) => {
            assert(identifiers(longer) =~= identifiers(entries).insert(id));
        },
        None => {
            assert(identifiers(longer) =~= identifiers(entries));
        },
    }
}

/// The identifiers of two sequences laid end to end are those of either.
pub proof fn lemma_identifiers_add(a: Seq<EntryView>, b: Seq<EntryView>)
    ensures
        identifiers(a + b) == identifiers(a).union(identifiers(b)),
{
    let both = a + b;
    assert forall|id: Seq<char>| carries(both, id) <==> (carries(a, id) || carries(b, id)) by {
        if carries(both, id) {
            let i = choose|i: int| 0 <= i < both.len() && (#[trigger] both[i]).guid == Some(id);
            if i < a.len() {
                assert(a[i].guid == Some(id));
            } else {
                assert(b[i - a.len()].guid == Some(id));
            }
        }
        if carries(a, id) {
            let i = choose|i: int| 0 <= i < a.len() && (#[trigger] a[i]).guid == Some(id);
            assert(both[i].guid == Some(id));
        }
        if carries(b, id) {
            let i = choose|i: int| 0 <= i < b.len() && (#[trigger] b[i]).guid == Some(id);
            assert(both[a.len() + i].guid == Some(id));
        }
    }
    assert(identifiers(both) =~= identifiers(a).union(identifiers(b)));
}

/// An entry put at the end counts once where it has no identifier.
pub proof fn lemma_unidentified_push(entries: Seq<EntryView>, entry: EntryView)
    ensures
        unidentified(entries.push(entry)) == unidentified(entries) + if entry.guid is None {
            1nat
        } else {
            0nat
        },
{
    reveal(Seq::filter);
    assert(entries.push(entry).drop_last() =~= entries);
}

/// The counts of two sequences laid end to end add up.
pub proof fn lemma_unidentified_add(a: Seq<EntryView>, b: Seq<EntryView>)
    ensures
        unidentified(a + b) == unidentified(a) + unidentified(b),
{
    Seq::filter_distributes_over_add(a, b, |e: EntryView| e.guid is None);
}

/// No more entries lack an identifier than there are entries.
pub proof fn lemma_unidentified_bound(entries: Seq<EntryView>)
    ensures
        unidentified(entries) <= entries.len(),
{
    entries.lemma_filter_len(|e: EntryView| e.guid is None);
}

/// The new entries of two sequences laid end to end are those of the first,
/// then those of the second that the first has not brought.
pub proof fn lemma_fresh_add(known: Set<Seq<char>>, a: Seq<EntryView>, b: Seq<EntryView>)
    ensures
        fresh(known, a + b) == fresh(known, a) + fresh(known.union(identifiers(a)), b),
    decreases b.len(),
{
    if b.len() == 0 {
        assert(a + b =~= a);
        assert(fresh(known, a) + Seq::<EntryView>::empty() =~= fresh(known, a));
    } else {
        let earlier = b.drop_last();
        let entry = b.last();
        assert((a + b).drop_last() =~= a + earlier);
        assert((a + b).last() == entry);
        lemma_fresh_add(known, a, earlier);
        lemma_identifiers_add(a, earlier);
        let wider = known.union(identifiers(a));
        assert(is_new(known, a + earlier, entry) == is_new(wider, earlier, entry)) by {
            if let Some(id) = entry.guid {
                assert(carries(a + earlier, id) == identifiers(a + earlier).contains(id));
                assert(carries(a, id) == identifiers(a).contains(id));
                assert(carries(earlier, id) == identifiers(earlier).contains(id));
            }
        }
        if is_new(known, a + earlier, entry) {
            assert(fresh(known, a + b) =~= fresh(known, a) + fresh(wider, b));
        }
    }
}

} // verus!
