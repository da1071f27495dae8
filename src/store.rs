use vstd::prelude::*;

use crate::ids::{decimal, decimal_string, digits_value, lemma_decimal_value};
use crate::item::{Item, ItemView, StoreError};

verus! {

/// The abstract state of a store: its items in insertion order, and the
/// counter value the next id is minted from.
pub struct StoreView {
    pub items: Seq<ItemView>,
    pub next_id: nat,
}

/// Item `i` of `items` has id `id`.
pub open spec fn has_id(items: Seq<ItemView>, id: Seq<char>, i: int) -> bool {
    0 <= i < items.len() && items[i].id == id
}

/// Some item of `items` has id `id`.
pub open spec fn contains_id(items: Seq<ItemView>, id: Seq<char>) -> bool {
    exists|i: int| has_id(items, id, i)
}

/// No two items of `items` share an id.
pub open spec fn unique_ids(items: Seq<ItemView>) -> bool {
    forall|i: int, j: int| 0 <= i < j < items.len() ==> items[i].id != items[j].id
}

/// The position of the item with id `id` (meaningful where there is one).
pub open spec fn index_of(items: Seq<ItemView>, id: Seq<char>) -> int {
    choose|i: int| has_id(items, id, i)
}

/// The item with id `id`, if any.
pub open spec fn lookup(items: Seq<ItemView>, id: Seq<char>) -> Option<ItemView> {
    if contains_id(items, id) {
        Some(items[index_of(items, id)])
    } else {
        None
    }
}

/// The view of an optional item.
pub open spec fn opt_view(r: Option<Item>) -> Option<ItemView> {
    match r {
        Some(it) => Some(it@),
        None => None,
    }
}

/// The item with these three fields.
pub open spec fn record(id: Seq<char>, title: Seq<char>, description: Seq<char>) -> ItemView {
    ItemView { id, title, description }
}

impl StoreView {
    /// Every id is the decimal rendering of a counter value; read as numbers
    /// they grow strictly along the sequence and stay below the counter,
    /// which starts at 1.
    pub open spec fn well_formed(self) -> bool {
        &&& self.next_id >= 1
        &&& forall|i: int|
            0 <= i < self.items.len() ==> {
                let v = digits_value(#[trigger] self.items[i].id);
                &&& self.items[i].id == decimal(v)
                &&& 1 <= v < self.next_id
            }
        &&& forall|i: int, j: int|
            0 <= i < j < self.items.len() ==> digits_value(#[trigger] self.items[i].id)
                < digits_value(#[trigger] self.items[j].id)
    }
}

/// The ids of a well-formed store are unique.
pub proof fn well_formed_ids_unique(s: StoreView)
    requires
        s.well_formed(),
    ensures
        unique_ids(s.items),
{
    assert forall|i: int, j: int| 0 <= i < j < s.items.len() implies s.items[i].id
        != s.items[j].id by {
        assert(digits_value(s.items[i].id) < digits_value(s.items[j].id));
    }
}

/// With unique ids, a position holding `id` is the position `index_of` picks.
pub(crate) proof fn lemma_index_of_unique(items: Seq<ItemView>, id: Seq<char>, p: int)
    requires
        unique_ids(items),
        has_id(items, id, p),
    ensures
        index_of(items, id) == p,
        lookup(items, id) == Some(items[p]),
{
    let q = index_of(items, id);
    assert(has_id(items, id, q));
    if q < p {
        assert(items[q].id != items[p].id);
    } else if p < q {
        assert(items[p].id != items[q].id);
    }
}

/// The store: items in insertion order and the id counter.
pub struct ItemStore {
    items: Vec<Item>,
    next_id: u64,
}

impl View for ItemStore {
    type V = StoreView;

    closed spec fn view(&self) -> StoreView {
        StoreView { items: self.items@.map_values(|it: Item| it@), next_id: self.next_id as nat }
    }
}

impl ItemStore {
    /// The store's invariant.
    pub open spec fn wf(&self) -> bool {
        self@.well_formed()
    }

    /// An empty store whose first id will be "1".
    pub fn new() -> (s: Self)
        ensures
            s.wf(),
            s@.items == Seq::<ItemView>::empty(),
            s@.next_id == 1,
    {
        let s = ItemStore { items: Vec::new(), next_id: 1 };
        assert(s@.items =~= Seq::<ItemView>::empty());
        s
    }

    /// The counter value the next created item's id is rendered from.
    pub fn next_id(&self) -> (r: u64)
        ensures
            r as nat == self@.next_id,
    {
        self.next_id
    }

    /// The number of stored items.
    pub fn len(&self) -> (r: usize)
        ensures
            r as nat == self@.items.len(),
    {
        self.items.len()
    }

    /// The first position whose item has id `id`.
    fn position(&self, id: &String) -> (r: Option<usize>)
        ensures
            match r {
                Some(p) => has_id(self@.items, id@, p as int) && forall|j: int|
                    0 <= j < p ==> !has_id(self@.items, id@, j),
                None => !contains_id(self@.items, id@),
            },
    {
        let n = self.items.len();
        let mut i: usize = 0;
        while i < n
            invariant
                n == self.items@.len(),
                i <= n,
                forall|j: int| 0 <= j < i ==> !has_id(self@.items, id@, j),
            decreases n - i,
        {
            if self.items[i].id == *id {
                return Some(i);
            }
            i = i + 1;
        }
        None
    }

    /// Appends a new item whose id is the counter rendered in base ten, and
    /// advances the counter. Returns a copy of the new item.
    pub fn create_item(&mut self, title: String, description: String) -> (r: Item)
        requires
            old(self).wf(),
            old(self)@.next_id < u64::MAX,
        ensures
            final(self).wf(),
            r@ == record(decimal(old(self)@.next_id), title@, description@),
            final(self)@.items == old(self)@.items.push(r@),
            final(self)@.next_id == old(self)@.next_id + 1,
    {
        let ghost before = self@;
        let id = decimal_string(self.next_id);
        proof {
            lemma_decimal_value(self.next_id as nat);
        }
        self.next_id = self.next_id + 1;
        let item = Item { id, title, description };
        let r = item.clone();
        self.items.push(item);
        assert(self@.items =~= before.items.push(r@));
        assert forall|i: int| 0 <= i < self@.items.len() implies {
            let v = digits_value(#[trigger] self@.items[i].id);
            &&& self@.items[i].id == decimal(v)
            &&& 1 <= v < self@.next_id
        } by {
            if i < before.items.len() {
                assert(self@.items[i] == before.items[i]);
            }
        }
        assert forall|i: int, j: int| 0 <= i < j < self@.items.len() implies digits_value(
            #[trigger] self@.items[i].id,
        ) < digits_value(#[trigger] self@.items[j].id) by {
            assert(self@.items[i] == before.items[i]);
            if j < before.items.len() {
                assert(self@.items[j] == before.items[j]);
            }
        }
        r
    }

    /// Replaces title and description of the item with id `id`, keeping its
    /// id and position. Fails with `NotFound` naming `id`, store unchanged,
    /// when no item has that id.
    pub fn update_item(&mut self, id: String, title: String, description: String) -> (r: Result<
        Item,
        StoreError,
    >)
        requires
            old(self).wf(),
        ensures
            final(self).wf(),
            final(self)@.next_id == old(self)@.next_id,
            contains_id(old(self)@.items, id@) <==> r is Ok,
            match r {
                Ok(it) => {
                    &&& it@ == record(id@, title@, description@)
                    &&& final(self)@.items == old(self)@.items.update(
                        index_of(old(self)@.items, id@),
                        it@,
                    )
                },
                Err(e) => {
                    &&& e matches StoreError::NotFound { id: missing }
                    &&& missing@ == id@
                    &&& final(self)@ == old(self)@
                },
            },
    {
        let ghost before = self@;
        match self.position(&id) {
            Some(p) => {
                proof {
                    well_formed_ids_unique(before);
                    lemma_index_of_unique(before.items, id@, p as int);
                }
                let item = Item { id, title, description };
                let r = item.clone();
                self.items.set(p, item);
                assert(self@.items =~= before.items.update(p as int, r@));
                assert forall|i: int| 0 <= i < self@.items.len() implies #[trigger] self@.items[i].id
                    == before.items[i].id by {}
                Ok(r)
            },
            None => Err(StoreError::NotFound { id }),
        }
    }

    /// Removes the item with id `id`; the others keep their order. Fails
    /// with `NotFound` naming `id`, store unchanged, when no item has that id.
    pub fn delete_item(&mut self, id: String) -> (r: Result<(), StoreError>)
        requires
            old(self).wf(),
        ensures
            final(self).wf(),
            final(self)@.next_id == old(self)@.next_id,
            contains_id(old(self)@.items, id@) <==> r is Ok,
            match r {
                Ok(_) => final(self)@.items == old(self)@.items.remove(
                    index_of(old(self)@.items, id@),
                ),
                Err(e) => {
                    &&& e matches StoreError::NotFound { id: missing }
                    &&& missing@ == id@
                    &&& final(self)@ == old(self)@
                },
            },
    {
        let ghost before = self@;
        match self.position(&id) {
            Some(p) => {
                proof {
                    well_formed_ids_unique(before);
                    lemma_index_of_unique(before.items, id@, p as int);
                }
                self.items.remove(p);
                assert(self@.items =~= before.items.remove(p as int));
                assert forall|i: int| 0 <= i < self@.items.len() implies #[trigger] self@.items[i]
                    == before.items[if i < p { i } else { i + 1 }] by {}
                assert forall|i: int, j: int| 0 <= i < j < self@.items.len() implies digits_value(
                    #[trigger] self@.items[i].id,
                ) < digits_value(#[trigger] self@.items[j].id) by {
                    let bi = if i < p { i } else { i + 1 };
                    let bj = if j < p { j } else { j + 1 };
                    assert(self@.items[i] == before.items[bi]);
                    assert(self@.items[j] == before.items[bj]);
                    assert(digits_value(before.items[bi].id) < digits_value(before.items[bj].id));
                }
                Ok(())
            },
            None => Err(StoreError::NotFound { id }),
        }
    }

    /// A copy of every item, in insertion order.
    pub fn list_items(&self) -> (r: Vec<Item>)
        ensures
            r@.map_values(|it: Item| it@) == self@.items,
    {
        let n = self.items.len();
        let mut out: Vec<Item> = Vec::new();
        let mut i: usize = 0;
        while i < n
            invariant
                n == self.items@.len(),
                i <= n,
                out@.map_values(|it: Item| it@) =~= self@.items.subrange(0, i as int),
            decreases n - i,
        {
            let ghost prev = out@;
            let c = self.items[i].clone();
            out.push(c);
            assert(out@.map_values(|it: Item| it@) =~= prev.map_values(|it: Item| it@).push(c@));
            assert(self@.items.subrange(0, i + 1) =~= self@.items.subrange(0, i as int).push(
                self@.items[i as int],
            ));
            i = i + 1;
        }
        assert(self@.items.subrange(0, n as int) =~= self@.items);
        out
    }

    /// A copy of the item with id `id`, or `None` when there is none.
    pub fn get_item(&self, id: String) -> (r: Option<Item>)
        requires
            self.wf(),
        ensures
            opt_view(r) == lookup(self@.items, id@),
    {
        match self.position(&id) {
            Some(p) => {
                proof {
                    well_formed_ids_unique(self@);
                    lemma_index_of_unique(self@.items, id@, p as int);
                }
                Some(self.items[p].clone())
            },
            None => None,
        }
    }
}

} // verus!
