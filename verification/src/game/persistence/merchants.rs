use vstd::prelude::*;

use crate::game::merchant::{
    dave_pool, dave_stock_pool, dave_view, drop_daves, dumpster_dave_template, first_exact_from,
    normalize_merchants, normalized, without_dave, MerchantCatalog, MerchantDefinition,
    MerchantDefinitionView, MerchantVisit, DUMPSTER_DAVE_NAME,
};
use crate::game::persistence::item_registry::{lookup, ItemRegistry};

verus! {

/// Ensure Dumpster Dave is at index 0, preserving his stock pool from any existing entry.
pub fn normalize_catalog(catalog: MerchantCatalog) -> (r: MerchantCatalog)
    ensures
        r.merchants_view() == normalized(catalog.merchants_view()),
{
    MerchantCatalog { merchants: normalize_merchants(catalog.merchants) }
}

pub proof fn lemma_without_dave_concat(a: Seq<MerchantDefinitionView>, b: Seq<MerchantDefinitionView>)
    ensures
        without_dave(a + b) == without_dave(a) + without_dave(b),
    decreases b.len(),
{
    if b.len() == 0 {
        assert(a + b =~= a);
        assert(without_dave(a) + without_dave(b) =~= without_dave(a));
    } else {
        lemma_without_dave_concat(a, b.drop_last());
        assert((a + b).drop_last() =~= a + b.drop_last());
        if b.last().name == DUMPSTER_DAVE_NAME@ {
        } else {
            assert(without_dave(a) + without_dave(b.drop_last()).push(b.last()) =~= (without_dave(a)
                + without_dave(b.drop_last())).push(b.last()));
        }
    }
}

pub proof fn lemma_without_dave_idem(s: Seq<MerchantDefinitionView>)
    ensures
        without_dave(without_dave(s)) == without_dave(s),
    decreases s.len(),
{
    if s.len() > 0 {
        lemma_without_dave_idem(s.drop_last());
        if s.last().name != DUMPSTER_DAVE_NAME@ {
            let w = without_dave(s.drop_last());
            assert(w.push(s.last()).drop_last() =~= w);
        }
    }
}

/// Merge freshly generated merchants with Dumpster Dave's existing stock pool: Dave first
/// with the pool the existing roster gives him, then the generated merchants other than
/// any Dave among them, in order.
pub fn merge_generated_catalog(existing: Option<&MerchantCatalog>, generated: MerchantCatalog) -> (r:
    MerchantCatalog)
    ensures
        r.merchants_view() == seq![dave_view(match existing {
            Some(c) => dave_pool(c.merchants_view()),
            None => Seq::empty(),
        })] + without_dave(generated.merchants_view()),
{
    let ghost pool_spec = match existing {
        Some(c) => dave_pool(c.merchants_view()),
        None => Seq::<u32>::empty(),
    };
    let pool: Vec<u32> = match existing {
        Some(c) => dave_stock_pool(&c.merchants),
        None => Vec::new(),
    };
    let mut dave = dumpster_dave_template();
    dave.stock_pool = pool;
    let ghost gv = generated.merchants_view();
    let mut merchants = drop_daves(generated.merchants);
    merchants.insert(0, dave);
    let ghost joined = seq![dave_view(pool_spec)] + without_dave(gv);
    assert(merchants@.map_values(|m: MerchantDefinition| m@) =~= joined);
    let r = normalize_merchants(merchants);
    proof {
        lemma_without_dave_concat(seq![dave_view(pool_spec)], without_dave(gv));
        lemma_without_dave_idem(gv);
        assert(seq![dave_view(pool_spec)].drop_last() =~= Seq::<MerchantDefinitionView>::empty());
        assert(without_dave(Seq::<MerchantDefinitionView>::empty()) =~= Seq::<MerchantDefinitionView>::empty());
        assert(seq![dave_view(pool_spec)].last().name == DUMPSTER_DAVE_NAME@);
        assert(without_dave(seq![dave_view(pool_spec)]) =~= Seq::<MerchantDefinitionView>::empty());
        assert(without_dave(joined) =~= without_dave(gv));
        assert(first_exact_from(joined, DUMPSTER_DAVE_NAME@, 0) == Some(0int));
        assert(dave_pool(joined) == pool_spec);
    }
    MerchantCatalog { merchants: r }
}

/// Is the roster non-empty with every pool id registered?
pub open spec fn catalog_registered(catalog: MerchantCatalog, registry: ItemRegistry) -> bool {
    catalog.merchants@.len() > 0 && forall|i: int|
        0 <= i < catalog.merchants@.len() ==> #[trigger] all_registered(
            catalog.merchants@[i].stock_pool@,
            registry,
        )
}

/// Is every id of `ids` registered?
pub open spec fn all_registered(ids: Seq<u32>, registry: ItemRegistry) -> bool {
    forall|k: int| 0 <= k < ids.len() ==> #[trigger] lookup(registry.items@, ids[k]) is Some
}

fn ids_registered(ids: &Vec<u32>, registry: &ItemRegistry) -> (r: bool)
    ensures
        r == all_registered(ids@, *registry),
{
    let mut k: usize = 0;
    while k < ids.len()
        invariant
            k <= ids@.len(),
            forall|j: int| 0 <= j < k ==> #[trigger] lookup(registry.items@, ids@[j]) is Some,
        decreases ids@.len() - k,
    {
        if registry.get(ids[k]).is_none() {
            return false;
        }
        k += 1;
    }
    true
}

/// True when the roster is non-empty and every stock-pool id in it exists in the item
/// registry.
pub fn catalog_matches_registry(catalog: &MerchantCatalog, registry: &ItemRegistry) -> (r: bool)
    ensures
        r == catalog_registered(*catalog, *registry),
{
    if catalog.merchants.len() == 0 {
        return false;
    }
    let mut i: usize = 0;
    while i < catalog.merchants.len()
        invariant
            i <= catalog.merchants@.len(),
            forall|j: int| 0 <= j < i ==> #[trigger] all_registered(catalog.merchants@[j].stock_pool@, *registry),
        decreases catalog.merchants@.len() - i,
    {
        if !ids_registered(&catalog.merchants[i].stock_pool, registry) {
            return false;
        }
        i += 1;
    }
    true
}

/// True when every visit stock id exists in the item registry.
pub fn visit_matches_registry(visit: &MerchantVisit, registry: &ItemRegistry) -> (r: bool)
    ensures
        r == all_registered(visit.stock@, *registry),
{
    ids_registered(&visit.stock, registry)
}

} // verus!
