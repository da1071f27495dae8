use vstd::prelude::*;

use crate::item::ItemView;
use crate::store::{
    StoreView, contains_id, has_id, index_of, lemma_index_of_unique, lookup, record, unique_ids,
    well_formed_ids_unique,
};

verus! {

/// A run of creates on an empty store lists exactly the created items, in
/// the order they were created: `states[k + 1]` is the store after the `k`-th
/// create, which appended `created[k]`.
pub proof fn creates_listed_in_order(states: Seq<StoreView>, created: Seq<ItemView>)
    requires
        states.len() == created.len() + 1,
        states[0].items.len() == 0,
        forall|k: int|
            0 <= k < created.len() ==> #[trigger] states[k + 1].items == states[k].items.push(
                created[k],
            ),
    ensures
        states.last().items == created,
    decreases created.len(),
{
    if created.len() > 0 {
        let n = created.len() - 1;
        creates_listed_in_order(states.drop_last(), created.drop_last());
        assert(states.drop_last().last() == states[n]);
        assert(states[n + 1].items == states[n].items.push(created[n]));
        assert(created =~= created.drop_last().push(created[n]));
    } else {
        assert(states[0].items =~= created);
    }
}

/// Updating an existing id keeps the id, the position and the length; a
/// later lookup of the id finds the new title and description, and every
/// other id still finds what it found before.
pub proof fn update_visible(s: StoreView, id: Seq<char>, title: Seq<char>, description: Seq<char>)
    requires
        s.well_formed(),
        contains_id(s.items, id),
    ensures
        ({
            let p = index_of(s.items, id);
            let after = s.items.update(p, record(id, title, description));
            &&& after.len() == s.items.len()
            &&& index_of(after, id) == p
            &&& lookup(after, id) == Some(record(id, title, description))
            &&& forall|other: Seq<char>| other != id ==> lookup(after, other) == lookup(s.items, other)
        }),
{
    let p = index_of(s.items, id);
    let after = s.items.update(p, record(id, title, description));
    well_formed_ids_unique(s);
    assert(has_id(s.items, id, p));
    assert(has_id(after, id, p));
    lemma_update_keeps_unique(s, id, title, description);
    assert forall|other: Seq<char>| other != id implies lookup(after, other) == lookup(s.items, other) by {
        if contains_id(s.items, other) {
            let q = index_of(s.items, other);
            assert(has_id(s.items, other, q));
            assert(has_id(after, other, q));
            lemma_index_of_unique(after, other, q);
            lemma_index_of_unique(s.items, other, q);
        } else {
            if contains_id(after, other) {
                let q = index_of(after, other);
                assert(has_id(after, other, q));
                assert(has_id(s.items, other, q));
            }
        }
    }
    lemma_index_of_unique(after, id, p);
}

/// The ids after an update of an existing id stay unique.
proof fn lemma_update_keeps_unique(s: StoreView, id: Seq<char>, title: Seq<char>, description: Seq<char>)
    requires
        s.well_formed(),
        contains_id(s.items, id),
    ensures
        unique_ids(s.items.update(index_of(s.items, id), record(id, title, description))),
{
    let p = index_of(s.items, id);
    well_formed_ids_unique(s);
    assert(has_id(s.items, id, p));
}

/// Deleting an existing id removes exactly that item: a later lookup of it
/// finds nothing, every other id finds what it found before, and the other
/// items keep their order.
pub proof fn delete_removes_only(s: StoreView, id: Seq<char>)
    requires
        s.well_formed(),
        contains_id(s.items, id),
    ensures
        ({
            let p = index_of(s.items, id);
            let after = s.items.remove(p);
            &&& after.len() + 1 == s.items.len()
            &&& lookup(after, id) is None
            &&& forall|other: Seq<char>| other != id ==> lookup(after, other) == lookup(s.items, other)
            &&& forall|i: int| 0 <= i < after.len() ==> #[trigger] after[i] == s.items[if i < p { i } else { i + 1 }]
        }),
{
    let p = index_of(s.items, id);
    let after = s.items.remove(p);
    well_formed_ids_unique(s);
    assert(has_id(s.items, id, p));
    assert forall|i: int| 0 <= i < after.len() implies #[trigger] after[i] == s.items[if i < p { i } else { i + 1 }] by {}
    assert(unique_ids(after)) by {
        assert forall|i: int, j: int| 0 <= i < j < after.len() implies after[i].id != after[j].id by {
            let bi = if i < p { i } else { i + 1 };
            let bj = if j < p { j } else { j + 1 };
            assert(after[i] == s.items[bi]);
            assert(after[j] == s.items[bj]);
        }
    }
    if contains_id(after, id) {
        let q = index_of(after, id);
        assert(has_id(after, id, q));
        let bq = if q < p { q } else { q + 1 };
        assert(after[q] == s.items[bq]);
        assert(s.items[bq].id != s.items[p].id);
    }
    assert forall|other: Seq<char>| other != id implies lookup(after, other) == lookup(s.items, other) by {
        if contains_id(s.items, other) {
            let q = index_of(s.items, other);
            assert(has_id(s.items, other, q));
            assert(q != p);
            let aq = if q < p { q } else { q - 1 };
            assert(after[aq] == s.items[q]);
            assert(has_id(after, other, aq));
            lemma_index_of_unique(after, other, aq);
            lemma_index_of_unique(s.items, other, q);
        } else if contains_id(after, other) {
            let q = index_of(after, other);
            assert(has_id(after, other, q));
            let bq = if q < p { q } else { q + 1 };
            assert(after[q] == s.items[bq]);
            assert(has_id(s.items, other, bq));
        }
    }
}

/// Deleting the same id twice: the first delete finds it, the second does
/// not (and so fails with `NotFound`).
pub proof fn delete_twice_not_found(s: StoreView, id: Seq<char>)
    requires
        s.well_formed(),
        contains_id(s.items, id),
    ensures
        !contains_id(s.items.remove(index_of(s.items, id)), id),
{
    delete_removes_only(s, id);
}

} // verus!
