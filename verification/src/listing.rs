//! The contents of a directory, chosen and ordered for display.

use std::path::{Path, PathBuf};
use vstd::prelude::*;

use crate::path::{is_hidden, owned, shown_name};
use crate::text::is_before;

verus! {

/// An entry that was found in a directory.
#[derive(Debug)]
pub struct Found {
    pub path: PathBuf,
    /// Whether it is a directory; `None` where that could not be found out.
    pub is_dir: Option<bool>,
}

/// The name a path is ordered by: its final component in lower case.
pub open spec fn key_text(text: Seq<u8>) -> Seq<char> {
    crate::text::lowercase(crate::path::shown_text(text))
}

/// Whether `left` is listed before `right`: directories before files, and each
/// by name, ignoring case.
pub open spec fn listed_before(left: (PathBuf, bool), right: (PathBuf, bool)) -> bool {
    if left.1 == right.1 {
        crate::text::text_before(
            key_text(crate::path::buf_text(&left.0)),
            key_text(crate::path::buf_text(&right.0)),
        )
    } else {
        left.1
    }
}

/// Neither is listed before the other.
pub open spec fn tied(left: (PathBuf, bool), right: (PathBuf, bool)) -> bool {
    !listed_before(left, right) && !listed_before(right, left)
}

/// Whether an entry is listed at all.
pub open spec fn is_kept(found: Found, show_hidden: bool) -> bool {
    &&& found.is_dir is Some
    &&& show_hidden || !crate::path::hidden_text(crate::path::buf_text(&found.path))
}

/// The entries that are listed, in the order in which they were found.
pub open spec fn kept(found: Seq<Found>, show_hidden: bool) -> Seq<(PathBuf, bool)>
    decreases found.len(),
{
    if found.len() == 0 {
        Seq::empty()
    } else {
        let before = kept(found.drop_last(), show_hidden);
        if is_kept(found.last(), show_hidden) {
            before.push((found.last().path, found.last().is_dir->0))
        } else {
            before
        }
    }
}

/// The place of `entry` in a list that is in order: behind everything that it
/// is not listed before.
pub open spec fn slot(list: Seq<(PathBuf, bool)>, entry: (PathBuf, bool)) -> int
    decreases list.len(),
{
    if list.len() == 0 {
        0
    } else if listed_before(entry, list.last()) {
        slot(list.drop_last(), entry)
    } else {
        list.len() as int
    }
}

/// The entries in order. Entries of the same rank stay in the order in which
/// they came.
pub open spec fn arranged(entries: Seq<(PathBuf, bool)>) -> Seq<(PathBuf, bool)>
    decreases entries.len(),
{
    if entries.len() == 0 {
        Seq::empty()
    } else {
        let before = arranged(entries.drop_last());
        before.insert(slot(before, entries.last()), entries.last())
    }
}

/// What is listed of a directory.
pub open spec fn listing(found: Seq<Found>, show_hidden: bool) -> Seq<(PathBuf, bool)> {
    arranged(kept(found, show_hidden))
}

/// No entry is listed before one above it.
pub open spec fn in_order(list: Seq<(PathBuf, bool)>) -> bool {
    forall|i: int, j: int|
        0 <= i < j < list.len() ==> !listed_before(#[trigger] list[j], #[trigger] list[i])
}

pub proof fn lemma_listed_irreflexive(a: (PathBuf, bool))
    ensures
        !listed_before(a, a),
{
    crate::text::lemma_text_irreflexive(key_text(crate::path::buf_text(&a.0)));
}

pub proof fn lemma_listed_transitive(a: (PathBuf, bool), b: (PathBuf, bool), c: (PathBuf, bool))
    requires
        listed_before(a, b),
        listed_before(b, c),
    ensures
        listed_before(a, c),
{
    if a.1 == b.1 && b.1 == c.1 {
        crate::text::lemma_text_transitive(
            key_text(crate::path::buf_text(&a.0)),
            key_text(crate::path::buf_text(&b.0)),
            key_text(crate::path::buf_text(&c.0)),
        );
    }
}

/// An entry listed before one is listed before whatever is not before that one.
pub proof fn lemma_listed_weak(x: (PathBuf, bool), a: (PathBuf, bool), b: (PathBuf, bool))
    requires
        listed_before(x, a),
        !listed_before(b, a),
    ensures
        listed_before(x, b),
{
    crate::text::lemma_text_total(
        key_text(crate::path::buf_text(&a.0)),
        key_text(crate::path::buf_text(&b.0)),
    );
    if listed_before(a, b) {
        lemma_listed_transitive(x, a, b);
    }
}

/// Everything from the slot on comes after the entry, and nothing in front of it does.
pub proof fn lemma_slot(list: Seq<(PathBuf, bool)>, entry: (PathBuf, bool))
    requires
        in_order(list),
    ensures
        0 <= slot(list, entry) <= list.len(),
        forall|i: int| 0 <= i < slot(list, entry) ==> !listed_before(entry, #[trigger] list[i]),
        forall|i: int| slot(list, entry) <= i < list.len() ==> listed_before(entry, #[trigger] list[i]),
    decreases list.len(),
{
    if list.len() > 0 {
        if listed_before(entry, list.last()) {
            let front = list.drop_last();
            assert forall|i: int, j: int| 0 <= i < j < front.len() implies !listed_before(
                #[trigger] front[j],
                #[trigger] front[i],
            ) by {
                assert(!listed_before(list[j], list[i]));
            }
            lemma_slot(front, entry);
            assert forall|i: int| 0 <= i < slot(list, entry) implies !listed_before(
                entry,
                #[trigger] list[i],
            ) by {
                assert(front[i] == list[i]);
            }
            assert forall|i: int| slot(list, entry) <= i < list.len() implies listed_before(
                entry,
                #[trigger] list[i],
            ) by {
                if i < front.len() {
                    assert(front[i] == list[i]);
                }
            }
        } else {
            assert forall|i: int| 0 <= i < list.len() implies !listed_before(
                entry,
                #[trigger] list[i],
            ) by {
                if listed_before(entry, list[i]) && i < list.len() - 1 {
                    lemma_listed_weak(entry, list[i], list[list.len() - 1]);
                }
            }
        }
    }
}

/// Putting an entry into its slot keeps a list in order.
proof fn lemma_insert_in_order(list: Seq<(PathBuf, bool)>, entry: (PathBuf, bool))
    requires
        in_order(list),
    ensures
        in_order(list.insert(slot(list, entry), entry)),
{
    lemma_slot(list, entry);
    let place = slot(list, entry);
    let after = list.insert(place, entry);
    assert forall|i: int, j: int| 0 <= i < j < after.len() implies !listed_before(
        #[trigger] after[j],
        #[trigger] after[i],
    ) by {
        let a = if i < place {
            i
        } else {
            i - 1
        };
        let b = if j < place {
            j
        } else {
            j - 1
        };
        if i == place {
            assert(after[j] == list[b]);
            assert(listed_before(entry, list[b]));
            if listed_before(list[b], entry) {
                lemma_listed_transitive(list[b], entry, list[b]);
                lemma_listed_irreflexive(list[b]);
            }
        } else if j == place {
            assert(after[i] == list[a]);
        } else {
            assert(after[i] == list[a] && after[j] == list[b]);
        }
    }
}

/// A listing is in order: directories first, then files, each by name and
/// ignoring case.
pub proof fn law_listing_in_order(entries: Seq<(PathBuf, bool)>)
    ensures
        in_order(arranged(entries)),
    decreases entries.len(),
{
    if entries.len() > 0 {
        law_listing_in_order(entries.drop_last());
        lemma_insert_in_order(arranged(entries.drop_last()), entries.last());
    }
}

/// Every directory of a listing stands above every file.
pub proof fn law_directories_first(entries: Seq<(PathBuf, bool)>, i: int, j: int)
    requires
        0 <= i < arranged(entries).len(),
        0 <= j < arranged(entries).len(),
        arranged(entries)[i].1,
        !arranged(entries)[j].1,
    ensures
        i < j,
{
    law_listing_in_order(entries);
    if j < i {
        assert(!listed_before(arranged(entries)[i], arranged(entries)[j]));
    }
}

/// Ordering a listing neither adds an entry nor loses one.
pub proof fn law_listing_same_entries(entries: Seq<(PathBuf, bool)>)
    ensures
        arranged(entries).to_multiset() == entries.to_multiset(),
        arranged(entries).len() == entries.len(),
    decreases entries.len(),
{
    broadcast use vstd::seq_lib::group_to_multiset_ensures;

    if entries.len() > 0 {
        let before = entries.drop_last();
        law_listing_same_entries(before);
        law_listing_in_order(before);
        lemma_slot(arranged(before), entries.last());
        assert(entries =~= before.push(entries.last()));
        assert(arranged(entries).to_multiset() =~= entries.to_multiset());
    } else {
        assert(arranged(entries) =~= entries);
    }
}

/// Entries that nothing tells apart stay in the order in which they were found.
pub proof fn law_listing_stable(entries: Seq<(PathBuf, bool)>, sample: (PathBuf, bool))
    ensures
        arranged(entries).filter(|e: (PathBuf, bool)| tied(e, sample)) == entries.filter(
            |e: (PathBuf, bool)| tied(e, sample),
        ),
    decreases entries.len(),
{
    let same = |e: (PathBuf, bool)| tied(e, sample);
    reveal(Seq::filter);
    if entries.len() > 0 {
        let entry = entries.last();
        let before = arranged(entries.drop_last());
        law_listing_stable(entries.drop_last(), sample);
        law_listing_in_order(entries.drop_last());
        lemma_slot(before, entry);
        let place = slot(before, entry);
        let front = before.take(place);
        let back = before.skip(place);
        assert(before =~= front + back);
        assert(before.insert(place, entry) =~= front.push(entry) + back);
        Seq::filter_distributes_over_add(front, back, same);
        Seq::filter_distributes_over_add(front.push(entry), back, same);
        assert(front.push(entry).drop_last() =~= front);
        if same(entry) {
            assert forall|i: int| 0 <= i < back.len() implies !same(#[trigger] back[i]) by {
                assert(back[i] == before[place + i]);
                assert(listed_before(entry, back[i]));
                if same(back[i]) {
                    lemma_listed_weak(entry, back[i], sample);
                }
            }
            lemma_filter_nothing(back, same);
            assert(front.filter(same) + back.filter(same) =~= front.filter(same));
        }
    }
}

proof fn lemma_filter_nothing(list: Seq<(PathBuf, bool)>, wanted: spec_fn((PathBuf, bool)) -> bool)
    requires
        forall|i: int| 0 <= i < list.len() ==> !wanted(#[trigger] list[i]),
    ensures
        list.filter(wanted) == Seq::<(PathBuf, bool)>::empty(),
    decreases list.len(),
{
    reveal(Seq::filter);
    if list.len() > 0 {
        lemma_filter_nothing(list.drop_last(), wanted);
        assert(!wanted(list[list.len() - 1]));
    }
}

/// A listing holds exactly the entries that could be read and, unless hidden
/// ones are wanted, are not hidden.
pub proof fn law_listing_contents(found: Seq<Found>, show_hidden: bool, entry: (PathBuf, bool))
    ensures
        listing(found, show_hidden).contains(entry) <==> exists|i: int|
            0 <= i < found.len() && is_kept(#[trigger] found[i], show_hidden) && entry == (
                found[i].path,
                found[i].is_dir->0,
            ),
{
    broadcast use vstd::seq_lib::group_to_multiset_ensures;

    let entries = kept(found, show_hidden);
    lemma_kept(found, show_hidden, entry);
    law_listing_same_entries(entries);
    assert(arranged(entries).contains(entry) <==> arranged(entries).to_multiset().count(entry) > 0);
    assert(entries.contains(entry) <==> entries.to_multiset().count(entry) > 0);
}

pub proof fn lemma_kept(found: Seq<Found>, show_hidden: bool, entry: (PathBuf, bool))
    ensures
        kept(found, show_hidden).contains(entry) <==> exists|i: int|
            0 <= i < found.len() && is_kept(#[trigger] found[i], show_hidden) && entry == (
                found[i].path,
                found[i].is_dir->0,
            ),
    decreases found.len(),
{
    if found.len() > 0 {
        let front = found.drop_last();
        lemma_kept(front, show_hidden, entry);
        let before = kept(front, show_hidden);
        let after = kept(found, show_hidden);
        if after.contains(entry) {
            let k = choose|k: int| 0 <= k < after.len() && after[k] == entry;
            if k < before.len() {
                assert(before[k] == entry);
                assert(before.contains(entry));
                let i = choose|i: int|
                    0 <= i < front.len() && is_kept(#[trigger] front[i], show_hidden) && entry == (
                        front[i].path,
                        front[i].is_dir->0,
                    );
                assert(found[i] == front[i]);
            } else {
                assert(is_kept(found[found.len() - 1], show_hidden));
            }
        }
        if exists|i: int|
            0 <= i < found.len() && is_kept(#[trigger] found[i], show_hidden) && entry == (
                found[i].path,
                found[i].is_dir->0,
            ) {
            let i = choose|i: int|
                0 <= i < found.len() && is_kept(#[trigger] found[i], show_hidden) && entry == (
                    found[i].path,
                    found[i].is_dir->0,
                );
            if i < front.len() {
                assert(front[i] == found[i]);
                assert(before.contains(entry));
                let k = choose|k: int| 0 <= k < before.len() && before[k] == entry;
                assert(after[k] == entry);
            } else {
                assert(after[after.len() - 1] == entry);
            }
        }
    }
}

/// An entry that is not hidden.
pub open spec fn is_visible() -> spec_fn((PathBuf, bool)) -> bool {
    |entry: (PathBuf, bool)| !crate::path::hidden_text(crate::path::buf_text(&entry.0))
}

/// Leaving hidden entries out removes exactly these: what is left is listed in
/// the same order as before.
pub proof fn law_hidden_entries_removed(found: Seq<Found>)
    ensures
        listing(found, false) == listing(found, true).filter(is_visible()),
{
    lemma_kept_visible(found);
    lemma_arranged_filter(kept(found, true), is_visible());
}

proof fn lemma_kept_visible(found: Seq<Found>)
    ensures
        kept(found, false) == kept(found, true).filter(is_visible()),
    decreases found.len(),
{
    reveal(Seq::filter);
    if found.len() > 0 {
        let front = found.drop_last();
        lemma_kept_visible(front);
        let all = kept(found, true);
        if is_kept(found.last(), true) {
            assert(all.drop_last() =~= kept(front, true));
        }
    }
}

/// What is left of a list was in it.
proof fn lemma_filter_from(
    list: Seq<(PathBuf, bool)>,
    wanted: spec_fn((PathBuf, bool)) -> bool,
    k: int,
) -> (from: int)
    requires
        0 <= k < list.filter(wanted).len(),
    ensures
        0 <= from < list.len(),
        list[from] == list.filter(wanted)[k],
    decreases list.len(),
{
    reveal(Seq::filter);
    if k < list.drop_last().filter(wanted).len() {
        lemma_filter_from(list.drop_last(), wanted, k)
    } else {
        list.len() - 1
    }
}

/// It makes no difference whether entries are ordered before or after some of
/// them are left out.
proof fn lemma_arranged_filter(
    entries: Seq<(PathBuf, bool)>,
    wanted: spec_fn((PathBuf, bool)) -> bool,
)
    ensures
        arranged(entries.filter(wanted)) == arranged(entries).filter(wanted),
    decreases entries.len(),
{
    reveal(Seq::filter);
    if entries.len() > 0 {
        let entry = entries.last();
        let before = arranged(entries.drop_last());
        lemma_arranged_filter(entries.drop_last(), wanted);
        law_listing_in_order(entries.drop_last());
        lemma_slot(before, entry);
        let place = slot(before, entry);
        let front = before.take(place);
        let back = before.skip(place);
        assert(before =~= front + back);
        assert(before.insert(place, entry) =~= front.push(entry) + back);
        Seq::filter_distributes_over_add(front, back, wanted);
        Seq::filter_distributes_over_add(front.push(entry), back, wanted);
        assert(front.push(entry).drop_last() =~= front);
        if wanted(entry) {
            let left = entries.drop_last().filter(wanted);
            let list = arranged(left);
            let above = front.filter(wanted);
            let below = back.filter(wanted);
            assert(list == above + below);
            law_listing_in_order(left);
            lemma_slot(list, entry);
            assert(slot(list, entry) == above.len()) by {
                let there = slot(list, entry);
                if there < above.len() {
                    assert(list[there] == above[there]);
                    let i = lemma_filter_from(front, wanted, there);
                    assert(front[i] == before[i]);
                } else if there > above.len() {
                    assert(list[above.len() as int] == below[0]);
                    let i = lemma_filter_from(back, wanted, 0);
                    assert(back[i] == before[place + i]);
                }
            }
            assert(left.push(entry).drop_last() =~= left);
            assert(list.insert(above.len() as int, entry) =~= above.push(entry) + below);
        }
    }
}

/// The name a path is ordered by.
pub fn sort_key(path: &Path) -> (key: String)
    ensures
        key@ == key_text(crate::path::path_text(path)),
{
    owned(shown_name(path)).to_lowercase()
}

/// Where an entry with this key goes in `list`, whose keys are `keys`.
fn find_slot(list: &Vec<(PathBuf, bool)>, keys: &Vec<String>, entry: &(PathBuf, bool), key: &String) -> (place:
    usize)
    requires
        in_order(list@),
        keys@.len() == list@.len(),
        forall|i: int|
            0 <= i < list@.len() ==> (#[trigger] keys@[i])@ == key_text(
                crate::path::buf_text(&list@[i].0),
            ),
        key@ == key_text(crate::path::buf_text(&entry.0)),
    ensures
        place == slot(list@, *entry),
{
    let mut low: usize = 0;
    let mut high: usize = list.len();
    proof {
        lemma_slot(list@, *entry);
    }
    while low < high
        invariant
            in_order(list@),
            keys@.len() == list@.len(),
            forall|i: int|
                0 <= i < list@.len() ==> (#[trigger] keys@[i])@ == key_text(
                    crate::path::buf_text(&list@[i].0),
                ),
            key@ == key_text(crate::path::buf_text(&entry.0)),
            0 <= low <= slot(list@, *entry) <= high <= list@.len(),
        decreases high - low,
    {
        let middle: usize = low + (high - low) / 2;
        let other_is_dir: bool = list[middle].1;
        let before: bool = if entry.1 == other_is_dir {
            is_before(key.as_str(), keys[middle].as_str())
        } else {
            entry.1
        };
        proof {
            assert(keys@[middle as int]@ == key_text(crate::path::buf_text(&list@[middle as int].0)));
            assert(before == listed_before(*entry, list@[middle as int]));
            lemma_slot(list@, *entry);
        }
        if before {
            high = middle;
        } else {
            low = middle + 1;
        }
    }
    low
}

/// What to show of a directory in which `found` was found, ordered for display:
/// directories first, then files, each case-insensitively alphabetical.
///
/// Entries whose kind is not known are skipped rather than failing the listing:
/// one broken entry should not stop the directory from opening.
pub fn read_dir(found: Vec<Found>, show_hidden: bool) -> (list: Vec<(PathBuf, bool)>)
    ensures
        list@ == listing(found@, show_hidden),
{
    let mut list: Vec<(PathBuf, bool)> = Vec::new();
    let mut keys: Vec<String> = Vec::new();
    for entry in entries: found
        invariant
            entries.seq() == found@,
            list@ == listing(found@.take(entries.index() as int), show_hidden),
            keys@.len() == list@.len(),
            forall|i: int|
                0 <= i < list@.len() ==> (#[trigger] keys@[i])@ == key_text(
                    crate::path::buf_text(&list@[i].0),
                ),
    {
        let ghost done = entries.index() as int;
        assert(found@.take(done + 1).drop_last() =~= found@.take(done));
        let hidden: bool = !show_hidden && is_hidden(entry.path.as_path());
        if let Some(is_dir) = entry.is_dir {
            if !hidden {
                let key = sort_key(entry.path.as_path());
                let item = (entry.path, is_dir);
                proof {
                    law_listing_in_order(kept(found@.take(done), show_hidden));
                    lemma_slot(list@, item);
                    let more = kept(found@.take(done), show_hidden).push(item);
                    assert(more.drop_last() =~= kept(found@.take(done), show_hidden));
                    assert(kept(found@.take(done + 1), show_hidden) == more);
                }
                let place: usize = find_slot(&list, &keys, &item, &key);
                let ghost old_list = list@;
                let ghost old_keys = keys@;
                list.insert(place, item);
                keys.insert(place, key);
                assert forall|i: int| 0 <= i < list@.len() implies (#[trigger] keys@[i])@
                    == key_text(crate::path::buf_text(&list@[i].0)) by {
                    if i < place {
                        assert(keys@[i] == old_keys[i] && list@[i] == old_list[i]);
                    } else if i > place {
                        assert(keys@[i] == old_keys[i - 1] && list@[i] == old_list[i - 1]);
                    }
                }
            }
        }
    }
    assert(found@.take(found@.len() as int) =~= found@);
    list
}

} // verus!
