use vstd::prelude::*;

use crate::game::domain::item::Item;

verus! {

/// Index of the first item at or after `i` with this id.
pub open spec fn first_item_from(items: Seq<Item>, id: u32, i: int) -> Option<int>
    decreases items.len() - i,
{
    if i < 0 || i >= items.len() {
        None
    } else if items[i].id == id {
        Some(i)
    } else {
        first_item_from(items, id, i + 1)
    }
}

/// The item registered under `id`: the first one carrying it.
pub open spec fn lookup(items: Seq<Item>, id: u32) -> Option<Item> {
    match first_item_from(items, id, 0) {
        Some(i) => Some(items[i]),
        None => None,
    }
}

/// The items once the first one with `id` is gone.
pub open spec fn without_item(items: Seq<Item>, id: u32) -> Seq<Item> {
    match first_item_from(items, id, 0) {
        Some(i) => items.remove(i),
        None => items,
    }
}

/// Every item known to the game, keyed by id.
#[derive(Debug, Default)]
pub struct ItemRegistry {
    pub items: Vec<Item>,
    pub next_id: u32,
}

impl ItemRegistry {
    /// Ids are distinct and all below `next_id`.
    pub open spec fn wf(self) -> bool {
        &&& forall|i: int| 0 <= i < self.items@.len() ==> #[trigger] self.items@[i].id < self.next_id
        &&& forall|i: int, j: int|
            0 <= i < j < self.items@.len() ==> self.items@[i].id != self.items@[j].id
    }

    fn position(&self, id: u32) -> (r: Option<usize>)
        ensures
            match r {
                Some(i) => first_item_from(self.items@, id, 0) == Some(i as int),
                None => first_item_from(self.items@, id, 0) is None,
            },
    {
        let mut i: usize = 0;
        while i < self.items.len()
            invariant
                i <= self.items@.len(),
                first_item_from(self.items@, id, 0) == first_item_from(self.items@, id, i as int),
            decreases self.items@.len() - i,
        {
            if self.items[i].id == id {
                return Some(i);
            }
            i += 1;
        }
        None
    }

    pub fn get(&self, id: u32) -> (r: Option<&Item>)
        ensures
            match r {
                Some(item) => lookup(self.items@, id) == Some(*item),
                None => lookup(self.items@, id) is None,
            },
    {
        match self.position(id) {
            Some(i) => {
                proof {
                    lemma_first_item_found(self.items@, id, 0);
                }
                Some(&self.items[i])
            },
            None => None,
        }
    }

    /// Register an item under the next free id and return that id.
    pub fn add_item(&mut self, item: Item) -> (r: u32)
        requires
            old(self).next_id < u32::MAX,
        ensures
            r == old(self).next_id,
            final(self).next_id == old(self).next_id + 1,
            final(self).items@ == old(self).items@.push(Item { id: r, ..item }),
            old(self).wf() ==> final(self).wf(),
    {
        let id = self.next_id;
        self.next_id = self.next_id + 1;
        let mut item = item;
        item.id = id;
        self.items.push(item);
        id
    }

    pub fn remove(&mut self, id: u32) -> (r: Option<Item>)
        ensures
            r == lookup(old(self).items@, id),
            final(self).items@ == without_item(old(self).items@, id),
            final(self).next_id == old(self).next_id,
            old(self).wf() ==> final(self).wf(),
    {
        match self.position(id) {
            Some(pos) => {
                proof {
                    lemma_first_item_found(self.items@, id, 0);
                }
                let item = self.items.remove(pos);
                proof {
                    if old(self).wf() {
                        assert forall|i: int, j: int|
                            0 <= i < j < self.items@.len() implies self.items@[i].id
                            != self.items@[j].id by {
                            let a = if i < pos { i } else { i + 1 };
                            let b = if j < pos { j } else { j + 1 };
                            assert(self.items@[i] == old(self).items@[a]);
                            assert(self.items@[j] == old(self).items@[b]);
                        }
                        assert forall|i: int| 0 <= i < self.items@.len() implies #[trigger] self.items@[i].id
                            < self.next_id by {
                            let a = if i < pos { i } else { i + 1 };
                            assert(self.items@[i] == old(self).items@[a]);
                        }
                    }
                }
                Some(item)
            },
            None => None,
        }
    }
}

/// A found item lies in range, carries the id, and nothing before it (from `i`) does.
pub proof fn lemma_first_item_found(items: Seq<Item>, id: u32, i: int)
    requires
        0 <= i,
    ensures
        first_item_from(items, id, i) matches Some(k) ==> i <= k < items.len() && items[k].id == id
            && forall|j: int| i <= j < k ==> items[j].id != id,
        first_item_from(items, id, i) is None ==> forall|j: int|
            i <= j < items.len() ==> items[j].id != id,
    decreases items.len() - i,
{
    if i < items.len() && items[i].id != id {
        lemma_first_item_found(items, id, i + 1);
    }
}

proof fn lemma_first_item_at(items: Seq<Item>, id: u32, k: int, i: int)
    requires
        0 <= i <= k < items.len(),
        items[k].id == id,
        forall|j: int| i <= j < k ==> items[j].id != id,
    ensures
        first_item_from(items, id, i) == Some(k),
    decreases k - i,
{
    if i < k {
        lemma_first_item_at(items, id, k, i + 1);
    }
}

proof fn lemma_first_item_none(items: Seq<Item>, id: u32, i: int)
    requires
        0 <= i,
        forall|j: int| i <= j < items.len() ==> items[j].id != id,
    ensures
        first_item_from(items, id, i) is None,
    decreases items.len() - i,
{
    if i < items.len() {
        lemma_first_item_none(items, id, i + 1);
    }
}

/// In a registry whose ids are distinct and below `next_id`, a newly added item is found
/// under the id it was given, and once an item is removed its id finds nothing.
pub proof fn lemma_registry_add_remove(items: Seq<Item>, next_id: u32, item: Item, id: u32)
    requires
        forall|i: int| 0 <= i < items.len() ==> #[trigger] items[i].id < next_id,
        forall|i: int, j: int| 0 <= i < j < items.len() ==> items[i].id != items[j].id,
    ensures
        lookup(items.push(Item { id: next_id, ..item }), next_id) == Some(Item { id: next_id, ..item }),
        lookup(without_item(items, id), id) is None,
{
    let added = items.push(Item { id: next_id, ..item });
    lemma_first_item_at(added, next_id, items.len() as int, 0);
    lemma_first_item_found(items, id, 0);
    match first_item_from(items, id, 0) {
        Some(k) => {
            let w = items.remove(k);
            assert forall|j: int| 0 <= j < w.len() implies w[j].id != id by {
                if j >= k {
                    assert(w[j] == items[j + 1]);
                }
            }
            lemma_first_item_none(w, id, 0);
        },
        None => {
            lemma_first_item_none(items, id, 0);
        },
    }
}

} // verus!
