//! A feed entry: the identifier by which entries are told apart, and the
//! item it was read from.

use vstd::prelude::*;

verus! {

/// `rss::Item`, carried through unread.
#[verifier::external_type_specification]
#[verifier::external_body]
pub struct ExItem(rss::Item);

/// The value of the `<guid>` of an item, where it has one.
pub uninterp spec fn item_guid(item: rss::Item) -> Option<Seq<char>>;

/// One entry of a feed.
pub struct Entry {
    /// The identifier under which the entry is merged.
    pub guid: Option<String>,
    /// The item as it was read.
    pub item: rss::Item,
}

/// What an entry is to the contracts: its identifier as a sequence of
/// characters, and its item.
pub struct EntryView {
    pub guid: Option<Seq<char>>,
    pub item: rss::Item,
}

impl View for Entry {
    type V = EntryView;

    open spec fn view(&self) -> EntryView {
        EntryView {
            guid: match self.guid {
                Some(s) => Some(s@),
                None => None,
            },
            item: self.item,
        }
    }
}

/// Calls `rss::Item::guid` and, where there is one, `rss::Guid::value`.
/// The contract claims that the string returned is the item's identifier,
/// and that there is none exactly where the item has no `<guid>`.
#[verifier::external_body]
fn read_guid(item: &rss::Item) -> (guid: Option<String>)
    ensures
        match guid {
            Some(s) => item_guid(*item) == Some(s@),
            None => item_guid(*item) is None,
        },
{
    item.guid().map(|g| g.value().to_string())
}

impl Entry {
    /// The entry for an item, under the item's own identifier.
    pub fn new(item: rss::Item) -> (entry: Entry)
        ensures
            entry@ == (EntryView { guid: item_guid(item), item: item }),
    {
        let guid = read_guid(&item);
        Entry { guid, item }
    }
}

} // verus!
