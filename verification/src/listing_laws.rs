//! What a listing is, in terms of what was found.

use std::path::PathBuf;
use vstd::prelude::*;

use crate::listing::Found;

verus! {

/// A listing is what was found, put in another order. `origin` says for every
/// place of the listing which of the found entries stands there:
///
/// - no entry stands in two places, and those that stand anywhere are exactly
///   the ones whose kind is known and, unless hidden ones are wanted, that are
///   no dotfiles;
/// - no directory stands below a file;
/// - of two entries of one kind, the upper one has the name that comes first in
///   lower case, or the same and was found first.
///
/// Nothing else fits: this leaves one listing.
pub proof fn law_listing(found: Seq<Found>, show_hidden: bool) -> (origin: Seq<int>)
    ensures
        ({
            let list = crate::listing::listing(found, show_hidden);
            &&& origin.len() == list.len()
            &&& forall|k: int|
                0 <= k < list.len() ==> {
                    &&& 0 <= #[trigger] origin[k] < found.len()
                    &&& list[k].0 == found[origin[k]].path
                    &&& found[origin[k]].is_dir == Some(list[k].1)
                }
            &&& forall|k: int, l: int|
                0 <= k < l < list.len() ==> #[trigger] origin[k] != #[trigger] origin[l]
            &&& forall|i: int|
                0 <= i < found.len() ==> (origin.contains(i) <==> (#[trigger] found[i]).is_dir is Some
                    && (show_hidden || !crate::path::hidden_text(
                    crate::path::buf_text(&found[i].path),
                )))
            &&& forall|k: int, l: int|
                0 <= k < l < list.len() && (#[trigger] list[l]).1 ==> (#[trigger] list[k]).1
            &&& forall|k: int, l: int|
                0 <= k < l < list.len() && (#[trigger] list[k]).1 == (#[trigger] list[l]).1 ==> {
                    let upper = crate::listing::key_text(crate::path::buf_text(&list[k].0));
                    let lower = crate::listing::key_text(crate::path::buf_text(&list[l].0));
                    ||| crate::text::text_before(upper, lower)
                    ||| upper == lower && origin[k] < origin[l]
                }
        }),
{
    let origin = lemma_origin(found, show_hidden);
    let list = crate::listing::listing(found, show_hidden);
    crate::listing::law_listing_in_order(crate::listing::kept(found, show_hidden));
    assert forall|k: int, l: int| 0 <= k < l < list.len() && (#[trigger] list[l]).1 implies (
    #[trigger] list[k]).1 by {
        assert(!crate::listing::listed_before(list[l], list[k]));
    }
    assert forall|k: int, l: int|
        0 <= k < l < list.len() && (#[trigger] list[k]).1 == (#[trigger] list[l]).1 implies {
        let upper = crate::listing::key_text(crate::path::buf_text(&list[k].0));
        let lower = crate::listing::key_text(crate::path::buf_text(&list[l].0));
        ||| crate::text::text_before(upper, lower)
        ||| upper == lower && origin[k] < origin[l]
    } by {
        let upper = crate::listing::key_text(crate::path::buf_text(&list[k].0));
        let lower = crate::listing::key_text(crate::path::buf_text(&list[l].0));
        assert(!crate::listing::listed_before(list[l], list[k]));
        crate::text::lemma_text_total(upper, lower);
        if upper == lower {
            crate::text::lemma_text_irreflexive(upper);
            assert(crate::listing::tied(list[k], list[l]));
        }
    }
    origin
}

proof fn lemma_origin(found: Seq<Found>, show_hidden: bool) -> (origin: Seq<int>)
    ensures
        ({
            let list = crate::listing::listing(found, show_hidden);
            &&& origin.len() == list.len()
            &&& forall|k: int|
                0 <= k < list.len() ==> {
                    &&& 0 <= #[trigger] origin[k] < found.len()
                    &&& list[k].0 == found[origin[k]].path
                    &&& found[origin[k]].is_dir == Some(list[k].1)
                }
            &&& forall|k: int, l: int|
                0 <= k < l < list.len() ==> #[trigger] origin[k] != #[trigger] origin[l]
            &&& forall|i: int|
                0 <= i < found.len() ==> (origin.contains(i) <==> crate::listing::is_kept(
                    #[trigger] found[i],
                    show_hidden,
                ))
            &&& forall|k: int, l: int|
                0 <= k < l < list.len() && crate::listing::tied(
                    #[trigger] list[k],
                    #[trigger] list[l],
                ) ==> origin[k] < origin[l]
        }),
    decreases found.len(),
{
    if found.len() == 0 {
        Seq::empty()
    } else {
        let front = found.drop_last();
        let last = found.len() - 1;
        let before = lemma_origin(front, show_hidden);
        let above = crate::listing::listing(front, show_hidden);
        let list = crate::listing::listing(found, show_hidden);
        if crate::listing::is_kept(found.last(), show_hidden) {
            let entry: (PathBuf, bool) = (found.last().path, found.last().is_dir->0);
            let kept = crate::listing::kept(found, show_hidden);
            assert(kept.drop_last() =~= crate::listing::kept(front, show_hidden));
            assert(kept.last() == entry);
            let place = crate::listing::slot(above, entry);
            crate::listing::law_listing_in_order(crate::listing::kept(front, show_hidden));
            crate::listing::lemma_slot(above, entry);
            assert(list == above.insert(place, entry));
            let origin = before.insert(place, last);
            assert forall|k: int| 0 <= k < list.len() implies {
                &&& 0 <= #[trigger] origin[k] < found.len()
                &&& list[k].0 == found[origin[k]].path
                &&& found[origin[k]].is_dir == Some(list[k].1)
            } by {
                if k < place {
                    assert(origin[k] == before[k] && list[k] == above[k]);
                    assert(front[before[k]] == found[before[k]]);
                } else if k > place {
                    assert(origin[k] == before[k - 1] && list[k] == above[k - 1]);
                    assert(front[before[k - 1]] == found[before[k - 1]]);
                }
            }
            assert forall|k: int, l: int| 0 <= k < l < list.len() implies #[trigger] origin[k]
                != #[trigger] origin[l] by {
                let a = if k < place {
                    k
                } else {
                    k - 1
                };
                let b = if l < place {
                    l
                } else {
                    l - 1
                };
                if k == place {
                    assert(origin[l] == before[b]);
                } else if l == place {
                    assert(origin[k] == before[a]);
                } else {
                    assert(origin[k] == before[a] && origin[l] == before[b]);
                }
            }
            assert forall|i: int| 0 <= i < found.len() implies (origin.contains(i)
                <==> crate::listing::is_kept(#[trigger] found[i], show_hidden)) by {
                if i == last {
                    assert(origin[place] == last);
                } else {
                    assert(front[i] == found[i]);
                    if origin.contains(i) {
                        let k = choose|k: int| 0 <= k < origin.len() && origin[k] == i;
                        assert(k != place);
                        let a = if k < place {
                            k
                        } else {
                            k - 1
                        };
                        assert(before[a] == i);
                    }
                    if before.contains(i) {
                        let a = choose|a: int| 0 <= a < before.len() && before[a] == i;
                        let k = if a < place {
                            a
                        } else {
                            a + 1
                        };
                        assert(origin[k] == i);
                    }
                }
            }
            assert forall|k: int, l: int|
                0 <= k < l < list.len() && crate::listing::tied(
                    #[trigger] list[k],
                    #[trigger] list[l],
                ) implies origin[k] < origin[l] by {
                let a = if k < place {
                    k
                } else {
                    k - 1
                };
                let b = if l < place {
                    l
                } else {
                    l - 1
                };
                if k == place {
                    assert(list[l] == above[b]);
                    assert(crate::listing::listed_before(entry, above[b]));
                } else if l == place {
                    assert(origin[k] == before[a]);
                } else {
                    assert(list[k] == above[a] && list[l] == above[b]);
                    assert(origin[k] == before[a] && origin[l] == before[b]);
                }
            }
            origin
        } else {
            assert(list == above);
            assert forall|i: int| 0 <= i < found.len() implies (before.contains(i)
                <==> crate::listing::is_kept(#[trigger] found[i], show_hidden)) by {
                if i < last {
                    assert(front[i] == found[i]);
                } else if before.contains(i) {
                    let k = choose|k: int| 0 <= k < before.len() && before[k] == i;
                    assert(0 <= before[k] < front.len());
                }
            }
            assert forall|k: int| 0 <= k < list.len() implies {
                &&& 0 <= #[trigger] before[k] < found.len()
                &&& list[k].0 == found[before[k]].path
                &&& found[before[k]].is_dir == Some(list[k].1)
            } by {
                assert(front[before[k]] == found[before[k]]);
            }
            before
        }
    }
}

} // verus!
