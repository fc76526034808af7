//! What holds of every merge.

use vstd::prelude::*;
use crate::entry::EntryView;
use crate::feed::FeedView;
use crate::model::{
    additions, carries, exceeds, fresh, identifiers, incoming, is_new, lemma_identifiers_add,
    lemma_identifiers_push, lemma_unidentified_push, merged, newest_channel, unidentified,
};

verus! {

/// Whether no identifier is carried by two entries of the sequence.
pub open spec fn distinct(entries: Seq<EntryView>) -> bool {
    forall|i: int, j: int|
        0 <= i < j < entries.len() && (#[trigger] entries[i]).guid is Some ==> entries[i].guid != (
        #[trigger] entries[j]).guid
}

/// Every new entry carries an identifier that was not known and that an
/// incoming entry carries.
pub proof fn fresh_entries_are_new(known: Set<Seq<char>>, entries: Seq<EntryView>)
    ensures
        forall|i: int|
            0 <= i < fresh(known, entries).len() ==> {
                let e = #[trigger] fresh(known, entries)[i];
                e.guid matches Some(id) && !known.contains(id) && carries(entries, id)
            },
    decreases entries.len(),
{
    if entries.len() > 0 {
        let earlier = entries.drop_last();
        fresh_entries_are_new(known, earlier);
        assert forall|i: int| 0 <= i < fresh(known, entries).len() implies {
            let e = #[trigger] fresh(known, entries)[i];
            e.guid matches Some(id) && !known.contains(id) && carries(entries, id)
        } by {
            let e = fresh(known, entries)[i];
            if i < fresh(known, earlier).len() {
                assert(e == fresh(known, earlier)[i]);
                let id = e.guid->Some_0;
                let k = choose|k: int| 0 <= k < earlier.len() && (#[trigger] earlier[k]).guid == Some(id);
                assert(entries[k].guid == Some(id));
            } else {
                assert(e == entries.last());
                assert(entries[entries.len() - 1].guid == e.guid);
            }
        }
    }
}

/// Every new entry is one of the incoming entries.
pub proof fn fresh_entries_are_incoming(known: Set<Seq<char>>, entries: Seq<EntryView>)
    ensures
        forall|i: int|
            0 <= i < fresh(known, entries).len() ==> entries.contains(
                #[trigger] fresh(known, entries)[i],
            ),
    decreases entries.len(),
{
    if entries.len() > 0 {
        let earlier = entries.drop_last();
        let kept = fresh(known, earlier);
        fresh_entries_are_incoming(known, earlier);
        assert forall|i: int| 0 <= i < fresh(known, entries).len() implies entries.contains(
            #[trigger] fresh(known, entries)[i],
        ) by {
            if i < kept.len() {
                assert(earlier.contains(kept[i]));
                let k = choose|k: int| 0 <= k < earlier.len() && earlier[k] == kept[i];
                assert(entries[k] == kept[i]);
            } else {
                assert(entries[entries.len() - 1] == fresh(known, entries)[i]);
            }
        }
    }
}

/// The new entries carry the incoming identifiers that were not known,
/// and no others.
pub proof fn fresh_entries_carry_unknown_identifiers(known: Set<Seq<char>>, entries: Seq<EntryView>)
    ensures
        identifiers(fresh(known, entries)) == identifiers(entries).difference(known),
    decreases entries.len(),
{
    if entries.len() == 0 {
        assert(identifiers(fresh(known, entries)) =~= identifiers(entries).difference(known));
    } else {
        let earlier = entries.drop_last();
        let last = entries.last();
        fresh_entries_carry_unknown_identifiers(known, earlier);
        assert(entries =~= earlier.push(last));
        lemma_identifiers_push(earlier, last);
        lemma_identifiers_push(fresh(known, earlier), last);
        if let Some(id) = last.guid {
            assert(carries(earlier, id) == identifiers(earlier).contains(id));
        }
        assert(identifiers(fresh(known, entries)) =~= identifiers(entries).difference(known));
    }
}

/// No identifier is carried by two of the new entries.
pub proof fn fresh_entries_are_distinct(known: Set<Seq<char>>, entries: Seq<EntryView>)
    ensures
        distinct(fresh(known, entries)),
    decreases entries.len(),
{
    if entries.len() > 0 {
        let earlier = entries.drop_last();
        fresh_entries_are_distinct(known, earlier);
        fresh_entries_are_new(known, earlier);
        let kept = fresh(known, earlier);
        let out = fresh(known, entries);
        assert forall|i: int, j: int|
            0 <= i < j < out.len() && (#[trigger] out[i]).guid is Some implies out[i].guid != (
        #[trigger] out[j]).guid by {
            if j < kept.len() {
                assert(out[i] == kept[i] && out[j] == kept[j]);
            } else {
                assert(out[i] == kept[i]);
                assert(out[j] == entries.last());
            }
        }
    }
}

/// Where every incoming identifier is known, no entry is new.
pub proof fn nothing_new_among_known(known: Set<Seq<char>>, entries: Seq<EntryView>)
    requires
        identifiers(entries).subset_of(known),
    ensures
        fresh(known, entries).len() == 0,
    decreases entries.len(),
{
    if entries.len() > 0 {
        let earlier = entries.drop_last();
        assert forall|id: Seq<char>| identifiers(earlier).contains(id) implies known.contains(id) by {
            let k = choose|k: int| 0 <= k < earlier.len() && (#[trigger] earlier[k]).guid == Some(id);
            assert(entries[k].guid == Some(id));
            assert(identifiers(entries).contains(id));
        }
        nothing_new_among_known(known, earlier);
        if let Some(id) = entries.last().guid {
            assert(entries[entries.len() - 1].guid == Some(id));
            assert(identifiers(entries).contains(id));
        }
    }
}

/// Where the incoming entries share no identifier with each other or with
/// what is known, each of them that carries an identifier is new.
pub proof fn all_new_among_distinct(known: Set<Seq<char>>, entries: Seq<EntryView>)
    requires
        distinct(entries),
        identifiers(entries).disjoint(known),
    ensures
        fresh(known, entries).len() + unidentified(entries) == entries.len(),
    decreases entries.len(),
{
    if entries.len() == 0 {
        reveal(Seq::filter);
    } else {
        let earlier = entries.drop_last();
        let last = entries.last();
        assert forall|id: Seq<char>| identifiers(earlier).contains(id) implies !known.contains(id) by {
            let k = choose|k: int| 0 <= k < earlier.len() && (#[trigger] earlier[k]).guid == Some(id);
            assert(entries[k].guid == Some(id));
            assert(identifiers(entries).contains(id));
        }
        assert(distinct(earlier)) by {
            assert forall|i: int, j: int|
                0 <= i < j < earlier.len() && (#[trigger] earlier[i]).guid is Some implies earlier[i].guid
                != (#[trigger] earlier[j]).guid by {
                assert(earlier[i] == entries[i] && earlier[j] == entries[j]);
            }
        }
        all_new_among_distinct(known, earlier);
        assert(entries =~= earlier.push(last));
        lemma_unidentified_push(earlier, last);
        if let Some(id) = last.guid {
            assert(entries[entries.len() - 1].guid == Some(id));
            assert(identifiers(entries).contains(id));
            if carries(earlier, id) {
                let k = choose|k: int| 0 <= k < earlier.len() && (#[trigger] earlier[k]).guid == Some(id);
                assert(entries[k].guid == Some(id));
            }
            assert(is_new(known, earlier, last));
        }
    }
}

/// A source that could not be loaded, wherever it stands among the
/// sources, brings no entry and leaves the choice of channel as it is.
pub proof fn unloaded_source_brings_nothing(
    fallback: rss::Channel,
    additional: Seq<Option<FeedView>>,
    at: int,
)
    requires
        0 <= at <= additional.len(),
    ensures
        incoming(additional.insert(at, None)) == incoming(additional),
        newest_channel(fallback, additional.insert(at, None)) == newest_channel(fallback, additional),
    decreases additional.len(),
{
    let longer = additional.insert(at, None);
    if at == additional.len() {
        assert(longer.drop_last() =~= additional);
        assert(incoming(additional) + Seq::<EntryView>::empty() =~= incoming(additional));
    } else {
        assert(longer.drop_last() =~= additional.drop_last().insert(at, None));
        assert(longer.last() == additional.last());
        unloaded_source_brings_nothing(fallback, additional.drop_last(), at);
    }
}

/// A feed merged with itself as the only additional source brings no new
/// entry: the outcome is the feed as it was, marked as unchanged.
pub proof fn merge_with_itself_changes_nothing(feed: FeedView, max: nat)
    ensures
        additions(feed.entries, seq![Some(feed)]).len() == 0,
        !merged(feed, seq![Some(feed)], max).changed,
        merged(feed, seq![Some(feed)], max).feed == feed,
{
    let sources = seq![Some(feed)];
    assert(sources.drop_last() =~= Seq::<Option<FeedView>>::empty());
    assert(incoming(sources.drop_last()) =~= Seq::<EntryView>::empty());
    assert(incoming(sources) =~= feed.entries);
    nothing_new_among_known(identifiers(feed.entries), feed.entries);
}

/// Where every identifier that the sources carry is one that the primary
/// feed carries, the outcome is the primary feed, marked as unchanged.
pub proof fn merge_of_known_entries_changes_nothing(
    primary: FeedView,
    additional: Seq<Option<FeedView>>,
    max: nat,
)
    requires
        identifiers(incoming(additional)).subset_of(identifiers(primary.entries)),
    ensures
        !merged(primary, additional, max).changed,
        merged(primary, additional, max).feed == primary,
{
    nothing_new_among_known(identifiers(primary.entries), incoming(additional));
}

/// Where the sources that were loaded carry no identifier twice, and none
/// that the primary feed carries, and the cap cuts nothing off, the merged
/// feed holds as many entries as all the feeds together, not counting the
/// entries of the sources that carry no identifier.
pub proof fn merge_of_distinct_entries_keeps_all(
    primary: FeedView,
    additional: Seq<Option<FeedView>>,
    max: nat,
)
    requires
        distinct(incoming(additional)),
        identifiers(incoming(additional)).disjoint(identifiers(primary.entries)),
        !merged(primary, additional, max).truncated,
    ensures
        merged(primary, additional, max).feed.entries.len() == primary.entries.len() + incoming(
            additional,
        ).len() - unidentified(incoming(additional)),
{
    all_new_among_distinct(identifiers(primary.entries), incoming(additional));
}

/// Where no identifier is carried by two entries of the primary feed, none
/// is carried by two entries of the merged feed.
pub proof fn merged_entries_are_distinct(
    primary: FeedView,
    additional: Seq<Option<FeedView>>,
    max: nat,
)
    requires
        distinct(primary.entries),
    ensures
        distinct(merged(primary, additional, max).feed.entries),
{
    let known = identifiers(primary.entries);
    let extra = additions(primary.entries, additional);
    let all = extra + primary.entries;
    let out = merged(primary, additional, max).feed.entries;
    fresh_entries_are_distinct(known, incoming(additional));
    fresh_entries_are_new(known, incoming(additional));
    assert(distinct(all)) by {
        assert forall|i: int, j: int|
            0 <= i < j < all.len() && (#[trigger] all[i]).guid is Some implies all[i].guid != (
        #[trigger] all[j]).guid by {
            if j < extra.len() {
                assert(all[i] == extra[i] && all[j] == extra[j]);
            } else if i < extra.len() {
                assert(all[i] == extra[i]);
                assert(all[j] == primary.entries[j - extra.len()]);
                let id = extra[i].guid->Some_0;
                if all[j].guid == Some(id) {
                    assert(carries(primary.entries, id));
                }
            } else {
                assert(all[i] == primary.entries[i - extra.len()]);
                assert(all[j] == primary.entries[j - extra.len()]);
            }
        }
    }
    assert forall|i: int, j: int|
        0 <= i < j < out.len() && (#[trigger] out[i]).guid is Some implies out[i].guid != (
    #[trigger] out[j]).guid by {
        if extra.len() > 0 {
            assert(out[i] == all[i] && out[j] == all[j]);
        }
    }
}

/// Where the cap cuts the merged entries short, the new entries are kept
/// before any of the primary feed's: as long as the new entries fill the
/// cap none of the primary feed's is kept, and once all new entries are in,
/// the primary feed's follow in their order until the cap is reached.
pub proof fn cap_prefers_new_entries(primary: FeedView, additional: Seq<Option<FeedView>>, max: nat)
    requires
        merged(primary, additional, max).truncated,
    ensures
        ({
            let extra = additions(primary.entries, additional);
            let out = merged(primary, additional, max).feed.entries;
            &&& out.len() == max
            &&& max <= extra.len() ==> out == extra.take(max as int)
            &&& max >= extra.len() ==> out == extra + primary.entries.take(max - extra.len())
        }),
{
    let extra = additions(primary.entries, additional);
    let all = extra + primary.entries;
    let out = merged(primary, additional, max).feed.entries;
    assert(exceeds(all, max));
    assert(out == all.take(max as int));
    if max <= extra.len() {
        assert(out =~= extra.take(max as int));
    }
    if max >= extra.len() {
        assert(out =~= extra + primary.entries.take(max - extra.len()));
    }
}

/// Where the cap cuts nothing off, the merged feed ends with the primary
/// feed's entries, those without an identifier among them, whatever the
/// sources hold.
pub proof fn primary_entries_pass_through(
    primary: FeedView,
    additional: Seq<Option<FeedView>>,
    max: nat,
)
    requires
        !merged(primary, additional, max).truncated,
    ensures
        merged(primary, additional, max).feed.entries == additions(primary.entries, additional)
            + primary.entries,
{
    let extra = additions(primary.entries, additional);
    if extra.len() == 0 {
        assert(extra + primary.entries =~= primary.entries);
    }
}

/// An entry of the merged feed that carries no identifier is one of the
/// primary feed's, in its place after the new entries: no entry of a source
/// comes through without an identifier.
pub proof fn unidentified_entries_are_primary(
    primary: FeedView,
    additional: Seq<Option<FeedView>>,
    max: nat,
)
    ensures
        ({
            let extra = additions(primary.entries, additional);
            let out = merged(primary, additional, max).feed.entries;
            &&& forall|i: int| 0 <= i < extra.len() ==> (#[trigger] extra[i]).guid is Some
            &&& forall|k: int|
                0 <= k < out.len() && (#[trigger] out[k]).guid is None ==> extra.len() <= k
                    < extra.len() + primary.entries.len() && out[k] == primary.entries[k
                    - extra.len()]
        }),
{
    let extra = additions(primary.entries, additional);
    let all = extra + primary.entries;
    let out = merged(primary, additional, max).feed.entries;
    fresh_entries_are_new(identifiers(primary.entries), incoming(additional));
    assert forall|k: int| 0 <= k < out.len() && (#[trigger] out[k]).guid is None implies extra.len()
        <= k < extra.len() + primary.entries.len() && out[k] == primary.entries[k - extra.len()] by {
        if extra.len() > 0 {
            assert(out[k] == all[k]);
            if k < extra.len() {
                assert(all[k] == extra[k]);
            }
        }
    }
}

/// Every entry of the merged feed is an entry of the primary feed or of a
/// source that was loaded.
pub proof fn merged_entries_are_input_entries(
    primary: FeedView,
    additional: Seq<Option<FeedView>>,
    max: nat,
)
    ensures
        ({
            let out = merged(primary, additional, max).feed.entries;
            forall|k: int|
                0 <= k < out.len() ==> primary.entries.contains(#[trigger] out[k]) || incoming(
                    additional,
                ).contains(out[k])
        }),
{
    let extra = additions(primary.entries, additional);
    let all = extra + primary.entries;
    let out = merged(primary, additional, max).feed.entries;
    fresh_entries_are_incoming(identifiers(primary.entries), incoming(additional));
    assert forall|k: int| 0 <= k < out.len() implies primary.entries.contains(#[trigger] out[k])
        || incoming(additional).contains(out[k]) by {
        if extra.len() == 0 {
            assert(primary.entries[k] == out[k]);
        } else {
            assert(out[k] == all[k]);
            if k < extra.len() {
                assert(all[k] == extra[k]);
            } else {
                assert(primary.entries[k - extra.len()] == out[k]);
            }
        }
    }
}

/// Where the cap cuts nothing off, the merged feed carries every
/// identifier that the primary feed or a source that was loaded carries,
/// and no other.
pub proof fn merged_identifiers_are_all_identifiers(
    primary: FeedView,
    additional: Seq<Option<FeedView>>,
    max: nat,
)
    requires
        !merged(primary, additional, max).truncated,
    ensures
        identifiers(merged(primary, additional, max).feed.entries) == identifiers(
            primary.entries,
        ).union(identifiers(incoming(additional))),
{
    let known = identifiers(primary.entries);
    let extra = additions(primary.entries, additional);
    let out = merged(primary, additional, max).feed.entries;
    let brought = identifiers(incoming(additional));
    fresh_entries_carry_unknown_identifiers(known, incoming(additional));
    assert(identifiers(extra) == brought.difference(known));
    if extra.len() == 0 {
        assert forall|id: Seq<char>| brought.contains(id) implies known.contains(id) by {
            if !known.contains(id) {
                assert(brought.difference(known).contains(id));
                assert(carries(extra, id));
            }
        }
        assert(out == primary.entries);
    } else {
        lemma_identifiers_add(extra, primary.entries);
        assert(out == extra + primary.entries);
    }
    assert(identifiers(out) =~= known.union(brought));
}

/// A source that could not be loaded leaves the outcome as it would be
/// without that source, wherever it stands among the sources.
pub proof fn unloaded_source_is_without_effect(
    primary: FeedView,
    additional: Seq<Option<FeedView>>,
    at: int,
    max: nat,
)
    requires
        0 <= at <= additional.len(),
    ensures
        merged(primary, additional.insert(at, None), max) == merged(primary, additional, max),
{
    unloaded_source_brings_nothing(primary.channel, additional, at);
}

/// With no source loaded the outcome is the primary feed, marked as
/// unchanged.
pub proof fn merge_without_loaded_source_changes_nothing(
    primary: FeedView,
    additional: Seq<Option<FeedView>>,
    max: nat,
)
    requires
        forall|i: int| 0 <= i < additional.len() ==> (#[trigger] additional[i]) is None,
    ensures
        !merged(primary, additional, max).changed,
        merged(primary, additional, max).feed == primary,
{
    nothing_incoming_unless_loaded(additional);
}

/// Sources of which none was loaded bring no entry.
pub proof fn nothing_incoming_unless_loaded(additional: Seq<Option<FeedView>>)
    requires
        forall|i: int| 0 <= i < additional.len() ==> (#[trigger] additional[i]) is None,
    ensures
        incoming(additional).len() == 0,
    decreases additional.len(),
{
    if additional.len() > 0 {
        let earlier = additional.drop_last();
        assert forall|i: int| 0 <= i < earlier.len() implies (#[trigger] earlier[i]) is None by {
            assert(earlier[i] == additional[i]);
        }
        nothing_incoming_unless_loaded(earlier);
        assert(additional[additional.len() - 1] is None);
    }
}

} // verus!
