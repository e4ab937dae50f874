//! The index of recently viewed items.
//!
//! The index is a short list, newest first. An item is listed once: viewing
//! it again changes nothing. A new item is put where its time places it,
//! after the oldest entries have made room for it.

use vstd::prelude::*;
use vstd::string::*;
use crate::config::{History, HistoryView, FILE_RECENT_FILES_ID, HISTORY_COUNT};
use crate::order::{
    inserted, insert_position, is_ordered, lemma_insert_position, lemma_inserted_is_ordered,
    lemma_ordered, ordered,
};
use crate::text::{join_text, same_text};

verus! {

pub struct Cache;

/// The views of the entries of `v`.
pub open spec fn history_views(v: Seq<History>) -> Seq<HistoryView> {
    v.map_values(|h: History| h@)
}

/// The key by which the index is ordered: it falls as the time rises, so
/// that the newest entry has the least key.
pub open spec fn newness() -> spec_fn(HistoryView) -> int {
    |h: HistoryView| -h.update_time
}

/// Every entry of `list` is at least as new as those that follow it.
pub open spec fn is_newest_first(list: Seq<HistoryView>) -> bool {
    is_ordered(list, newness())
}

/// The entries of `list`, newest first. Entries of the same time keep the
/// order they had.
pub open spec fn newest_first(list: Seq<HistoryView>) -> Seq<HistoryView> {
    ordered(list, newness())
}

/// Whether `list` holds an entry for the item called `name` at `path`.
pub open spec fn is_listed(list: Seq<HistoryView>, name: Seq<char>, path: Seq<char>) -> bool {
    exists|i: int| 0 <= i < list.len() && (#[trigger] list[i]).name == name && list[i].path == path
}

/// A full `list` without the entries that must go before another one is
/// added; any other `list` as it is.
pub open spec fn with_room(list: Seq<HistoryView>) -> Seq<HistoryView> {
    if list.len() >= HISTORY_COUNT {
        list.take(HISTORY_COUNT - 1)
    } else {
        list
    }
}

/// The entry made for an item that is viewed for the first time.
pub open spec fn new_entry(name: Seq<char>, path: Seq<char>, uuid: Seq<char>, now: int) -> HistoryView {
    HistoryView { id: FILE_RECENT_FILES_ID@ + uuid, name, path, update_time: now }
}

/// The index after the item called `name` at `path` has been viewed at
/// time `now`.
pub open spec fn remembered(
    list: Seq<HistoryView>,
    name: Seq<char>,
    path: Seq<char>,
    uuid: Seq<char>,
    now: int,
) -> Seq<HistoryView> {
    if is_listed(list, name, path) {
        list
    } else {
        inserted(with_room(newest_first(list)), newness(), new_entry(name, path, uuid, now))
    }
}

impl Cache {
    /// Whether `contents` holds an entry for the item called `name` at
    /// `path`.
    fn find(contents: &Vec<History>, name: &str, path: &str) -> (found: bool)
        ensures
            found == is_listed(history_views(contents@), name@, path@),
    {
        let mut i: usize = 0;
        while i < contents.len()
            invariant
                i <= contents@.len(),
                forall|j: int|
                    0 <= j < i ==> !((#[trigger] history_views(contents@)[j]).name == name@
                        && history_views(contents@)[j].path == path@),
            decreases contents@.len() - i,
        {
            if same_text(contents[i].name.as_str(), name) && same_text(
                contents[i].path.as_str(),
                path,
            ) {
                assert(history_views(contents@)[i as int].name == name@);
                return true;
            }
            i += 1;
        }
        false
    }

    /// Puts `entry` into `list` where its time places it.
    fn insert(list: &mut Vec<History>, entry: History)
        ensures
            history_views(final(list)@) == inserted(history_views(old(list)@), newness(), entry@),
    {
        let ghost views = history_views(list@);
        let mut p: usize = list.len();
        assert(views.take(p as int) =~= views);
        while p > 0 && list[p - 1].update_time < entry.update_time
            invariant
                p <= list@.len(),
                views == history_views(list@),
                insert_position(views, newness(), -entry@.update_time) == insert_position(
                    views.take(p as int),
                    newness(),
                    -entry@.update_time,
                ),
            decreases p,
        {
            proof {
                assert(views.take(p as int).last() == list@[p - 1]@);
                assert(views.take(p as int).drop_last() =~= views.take(p - 1));
            }
            p -= 1;
        }
        proof {
            if p > 0 {
                assert(views.take(p as int).last() == list@[p - 1]@);
            }
        }
        list.insert(p, entry);
        assert(history_views(list@) =~= views.insert(p as int, entry@));
    }

    /// Records that the item called `name` at `path` was viewed at time
    /// `now`. `uuid` is a fresh identifier.
    ///
    /// An item that is listed already leaves the index as it is. For any
    /// other item the entries are put newest first, the oldest go when the
    /// index is full, and the new entry takes the place its time gives it.
    /// Returns the index, and whether it has changed.
    pub fn save_history(contents: Vec<History>, name: &str, path: &str, uuid: &str, now: i64) -> (r:
        (Vec<History>, bool))
        ensures
            history_views(r.0@) == remembered(
                history_views(contents@),
                name@,
                path@,
                uuid@,
                now as int,
            ),
            r.1 == !is_listed(history_views(contents@), name@, path@),
            r.1 ==> {
                &&& is_newest_first(history_views(r.0@))
                &&& r.0@.len() <= HISTORY_COUNT
                &&& history_views(r.0@).contains(new_entry(name@, path@, uuid@, now as int))
            },
    {
        if Self::find(&contents, name, path) {
            return (contents, false);
        }
        let mut sorted: Vec<History> = Vec::new();
        let mut i: usize = 0;
        assert(history_views(contents@).take(0) =~= Seq::<HistoryView>::empty());
        assert(history_views(sorted@) =~= Seq::<HistoryView>::empty());
        while i < contents.len()
            invariant
                i <= contents@.len(),
                history_views(sorted@) == newest_first(history_views(contents@).take(i as int)),
            decreases contents@.len() - i,
        {
            proof {
                let next = history_views(contents@).take(i + 1);
                assert(next.drop_last() =~= history_views(contents@).take(i as int));
                assert(next.last() == contents@[i as int]@);
            }
            Self::insert(&mut sorted, contents[i].clone());
            i += 1;
        }
        assert(history_views(contents@).take(contents@.len() as int) =~= history_views(contents@));
        let ghost all = history_views(sorted@);
        if sorted.len() >= HISTORY_COUNT {
            sorted.truncate(HISTORY_COUNT - 1);
            assert(history_views(sorted@) =~= all.take(HISTORY_COUNT - 1));
        }
        let entry = History {
            id: join_text(FILE_RECENT_FILES_ID, uuid),
            name: name.to_owned(),
            path: path.to_owned(),
            update_time: now,
        };
        proof {
            lemma_ordered(history_views(contents@), newness());
            assert(is_newest_first(history_views(sorted@))) by {
                let kept = history_views(sorted@);
                assert forall|i: int, j: int| 0 <= i < j < kept.len() implies newness()(
                    #[trigger] kept[i],
                ) <= newness()(#[trigger] kept[j]) by {
                    assert(kept[i] == all[i] && kept[j] == all[j]);
                }
            }
            lemma_inserted_is_ordered(history_views(sorted@), newness(), entry@);
            lemma_insert_position(history_views(sorted@), newness(), -entry@.update_time);
        }
        let ghost kept = history_views(sorted@);
        Self::insert(&mut sorted, entry);
        proof {
            let p = insert_position(kept, newness(), -(now as int));
            assert(history_views(sorted@)[p] == new_entry(name@, path@, uuid@, now as int));
        }
        (sorted, true)
    }
}

/// Ordering the index neither adds nor loses an entry, and leaves it
/// newest first.
pub proof fn lemma_newest_first(list: Seq<HistoryView>)
    ensures
        is_newest_first(newest_first(list)),
        newest_first(list).to_multiset() == list.to_multiset(),
{
    lemma_ordered(list, newness());
}

} // verus!
