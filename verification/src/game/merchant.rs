use vstd::prelude::*;

use crate::game::domain::item::Item;
use crate::game::domain::player::Player;
use crate::game::persistence::item_registry::{lookup, ItemRegistry};
use crate::rng::{choose_multiple_u32, choose_usize, gen_range_u8, gen_ratio};
use crate::text::{eq_ignore_ascii_case, eq_ignore_case, owned, str_eq};

verus! {

/// Chance that an idle guild hall gets a merchant visit on a tick: one in five.
pub const MERCHANT_VISIT_CHANCE_NUMERATOR: u32 = 1;

pub const MERCHANT_VISIT_CHANCE_DENOMINATOR: u32 = 5;

pub const MERCHANT_VISIT_STOCK_SIZE: usize = 5;

/// Shortest and longest stay of a visiting merchant, in ticks.
pub const MERCHANT_STAY_TICKS_MIN: u8 = 2;

pub const MERCHANT_STAY_TICKS_MAX: u8 = 5;

pub const MERCHANT_ROSTER_SIZE: usize = 5;

pub const MERCHANT_LOW_TIER_COUNT: usize = 3;

pub const MERCHANT_STOCK_POOL_SIZE: usize = 15;

pub const MERCHANT_LOW_DIFF_MIN: u8 = 1;

pub const MERCHANT_LOW_DIFF_MAX: u8 = 5;

pub const MERCHANT_HIGH_DIFF_MIN: u8 = 6;

pub const MERCHANT_HIGH_DIFF_MAX: u8 = 10;

pub const DUMPSTER_DAVE_INDEX: usize = 0;

pub const DUMPSTER_DAVE_NAME: &'static str = "Dumpster Dave";

pub const DUMPSTER_DAVE_THEME: &'static str = "A grease-stained salvage hawker who resells everything chuds pawn from the guild dumpster. His corner of the market smells like wet cardboard, brass polish, and items nobody will admit they owned.";

#[derive(Debug, Clone, Copy, PartialEq, Eq, Structural)]
pub enum MerchantTickEvent {
    /// Nothing happened this tick.
    Idle,
    Spawned,
    Departed,
    Tick,
}

#[derive(Debug, Clone, Copy, PartialEq, Eq, Structural)]
pub enum BuyError {
    SoldOut,
    InsufficientFunds,
    StashFull,
    InvalidSlot,
}

#[derive(Debug, Clone, Copy, PartialEq, Eq, Structural)]
pub enum ForcedSpawnError {
    AlreadyVisiting,
    NoCatalog,
    MerchantNotFound,
    MerchantEmpty,
}

#[derive(Debug)]
pub struct MerchantDefinition {
    pub name: String,
    pub theme: String,
    pub stock_pool: Vec<u32>,
}

/// A merchant seen through the contents of its strings and pool.
pub struct MerchantDefinitionView {
    pub name: Seq<char>,
    pub theme: Seq<char>,
    pub stock_pool: Seq<u32>,
}

impl View for MerchantDefinition {
    type V = MerchantDefinitionView;

    open spec fn view(&self) -> MerchantDefinitionView {
        MerchantDefinitionView {
            name: self.name@,
            theme: self.theme@,
            stock_pool: self.stock_pool@,
        }
    }
}

impl Clone for MerchantDefinition {
    fn clone(&self) -> (r: Self)
        ensures
            r@ == self@,
    {
        MerchantDefinition {
            name: self.name.clone(),
            theme: self.theme.clone(),
            stock_pool: self.stock_pool.clone(),
        }
    }
}

#[derive(Debug)]
pub struct MerchantCatalog {
    pub merchants: Vec<MerchantDefinition>,
}

impl MerchantCatalog {
    pub open spec fn merchants_view(self) -> Seq<MerchantDefinitionView> {
        self.merchants@.map_values(|m: MerchantDefinition| m@)
    }
}

#[derive(Debug)]
pub struct MerchantVisit {
    pub merchant_index: usize,
    pub merchant_name: String,
    pub ticks_remaining: u8,
    pub stock: Vec<u32>,
}

#[derive(Debug, Default)]
pub struct MerchantState {
    /// The merchant roster, kept in its own save file.
    pub catalog: Option<MerchantCatalog>,
    pub visit: Option<MerchantVisit>,
    /// Runtime-only admin flag; not persisted across restarts.
    pub spawn_next_tick: bool,
    /// When set with `spawn_next_tick`, force the next visit to this merchant name.
    pub spawn_merchant_name: Option<String>,
}

/// Dumpster Dave: the salvage merchant who always stands first in the roster.
pub open spec fn dave_view(pool: Seq<u32>) -> MerchantDefinitionView {
    MerchantDefinitionView {
        name: DUMPSTER_DAVE_NAME@,
        theme: DUMPSTER_DAVE_THEME@,
        stock_pool: pool,
    }
}

/// Static recycling-bin merchant; `stock_pool` is populated at runtime from player sells.
pub fn dumpster_dave_template() -> (r: MerchantDefinition)
    ensures
        r@ == dave_view(Seq::empty()),
{
    MerchantDefinition {
        name: owned(DUMPSTER_DAVE_NAME),
        theme: owned(DUMPSTER_DAVE_THEME),
        stock_pool: Vec::new(),
    }
}

/// True when the catalog only contains Dumpster Dave (or is empty beyond him).
pub fn catalog_needs_generated_roster(catalog: &MerchantCatalog) -> (r: bool)
    ensures
        r == (catalog.merchants@.len() <= DUMPSTER_DAVE_INDEX + 1),
{
    catalog.merchants.len() <= DUMPSTER_DAVE_INDEX + 1
}

/// Index of the first merchant at or after `i` whose name matches `name` up to ASCII case.
pub open spec fn first_named_from(ms: Seq<MerchantDefinitionView>, name: Seq<char>, i: int) -> Option<
    int,
>
    decreases ms.len() - i,
{
    if i < 0 || i >= ms.len() {
        None
    } else if eq_ignore_ascii_case(ms[i].name, name) {
        Some(i)
    } else {
        first_named_from(ms, name, i + 1)
    }
}

/// Index of the first merchant at or after `i` with stock whose name matches `name`.
pub open spec fn first_available_named_from(
    ms: Seq<MerchantDefinitionView>,
    name: Seq<char>,
    i: int,
) -> Option<int>
    decreases ms.len() - i,
{
    if i < 0 || i >= ms.len() {
        None
    } else if ms[i].stock_pool.len() > 0 && eq_ignore_ascii_case(ms[i].name, name) {
        Some(i)
    } else {
        first_available_named_from(ms, name, i + 1)
    }
}

pub open spec fn has_available(ms: Seq<MerchantDefinitionView>) -> bool {
    exists|i: int| 0 <= i < ms.len() && #[trigger] ms[i].stock_pool.len() > 0
}

/// The error, if any, that asking for a forced spawn of `name` meets.
pub open spec fn spawn_flag_error(state: MerchantState, name: Option<Seq<char>>) -> Option<
    ForcedSpawnError,
> {
    if state.visit is Some {
        Some(ForcedSpawnError::AlreadyVisiting)
    } else {
        match name {
            None => None,
            Some(n) => match state.catalog {
                None => Some(ForcedSpawnError::NoCatalog),
                Some(c) => match first_named_from(c.merchants_view(), n, 0) {
                    None => Some(ForcedSpawnError::MerchantNotFound),
                    Some(i) => if c.merchants_view()[i].stock_pool.len() == 0 {
                        Some(ForcedSpawnError::MerchantEmpty)
                    } else {
                        None
                    },
                },
            },
        }
    }
}

pub open spec fn opt_view(o: Option<String>) -> Option<Seq<char>> {
    match o {
        Some(s) => Some(s@),
        None => None,
    }
}

pub open spec fn min_usize(a: int, b: int) -> int {
    if a < b {
        a
    } else {
        b
    }
}

/// A visit the catalog can produce: a merchant with stock, its name, a stay within bounds,
/// and up to a full display of distinct pool entries; a preferred name picks the first
/// stocked merchant that answers to it.
pub open spec fn visit_ok(ms: Seq<MerchantDefinitionView>, preferred: Option<Seq<char>>, v: MerchantVisit) -> bool {
    let i = v.merchant_index as int;
    &&& 0 <= i < ms.len()
    &&& ms[i].stock_pool.len() > 0
    &&& v.merchant_name@ == ms[i].name
    &&& MERCHANT_STAY_TICKS_MIN <= v.ticks_remaining <= MERCHANT_STAY_TICKS_MAX
    &&& v.stock@.len() == min_usize(MERCHANT_VISIT_STOCK_SIZE as int, ms[i].stock_pool.len() as int)
    &&& v.stock@.to_multiset().subset_of(ms[i].stock_pool.to_multiset())
    &&& (preferred matches Some(n) ==> first_available_named_from(ms, n, 0) == Some(i))
}

/// Can a visit be spawned (honouring `preferred`)?
pub open spec fn can_spawn(catalog: Option<MerchantCatalog>, preferred: Option<Seq<char>>) -> bool {
    match catalog {
        None => false,
        Some(c) => has_available(c.merchants_view()) && match preferred {
            Some(n) => first_available_named_from(c.merchants_view(), n, 0) is Some,
            None => true,
        },
    }
}

/// The merchant state after a sold item is recycled: it joins Dumpster Dave's pool (once),
/// with Dave made sure to stand first, and leaves his table if he is the one visiting.
pub open spec fn recycled(before: MerchantState, after: MerchantState, item_id: u32) -> bool {
    &&& after.catalog matches Some(c) && ({
        let ms = with_dave(before.catalog);
        let pool = ms[0].stock_pool;
        c.merchants_view() == ms.update(
            0,
            MerchantDefinitionView {
                stock_pool: if pool.contains(item_id) {
                    pool
                } else {
                    pool.push(item_id)
                },
                ..ms[0]
            },
        )
    })
    &&& match before.visit {
        Some(v) => after.visit matches Some(w) && w.merchant_index == v.merchant_index
            && w.merchant_name == v.merchant_name && w.ticks_remaining == v.ticks_remaining
            && w.stock@ == (if v.merchant_index == DUMPSTER_DAVE_INDEX {
            remove_value(v.stock@, item_id)
        } else {
            v.stock@
        }),
        None => after.visit is None,
    }
    &&& after.spawn_next_tick == before.spawn_next_tick
    &&& after.spawn_merchant_name == before.spawn_merchant_name
}

/// Does Dumpster Dave stand first with `id` in his pool?
pub open spec fn dave_holds(m: MerchantState, id: u32) -> bool {
    m.catalog matches Some(c) && c.merchants_view().len() > 0 && c.merchants_view()[0].name
        == DUMPSTER_DAVE_NAME@ && c.merchants_view()[0].stock_pool.contains(id)
}

/// Recycling keeps what Dave already holds and adds the recycled item.
pub proof fn lemma_recycled_holds(before: MerchantState, after: MerchantState, item_id: u32, other: u32)
    requires
        recycled(before, after, item_id),
        dave_holds(before, other),
    ensures
        dave_holds(after, item_id),
        dave_holds(after, other),
{
    let c0 = before.catalog.unwrap();
    assert(c0.merchants_view()[0] == c0.merchants@[0]@);
    lemma_with_dave_first(before.catalog);
    let ms = with_dave(before.catalog);
    assert(ms == c0.merchants_view());
    let pool = ms[0].stock_pool;
    let k = choose|k: int| 0 <= k < pool.len() && pool[k] == other;
    if !pool.contains(item_id) {
        assert(pool.push(item_id)[pool.len() as int] == item_id);
        assert(pool.push(item_id)[k] == other);
    }
    lemma_recycled_has(before, after, item_id);
}

/// Recycling always leaves the item with Dave.
pub proof fn lemma_recycled_has(before: MerchantState, after: MerchantState, item_id: u32)
    requires
        recycled(before, after, item_id),
    ensures
        dave_holds(after, item_id),
{
    lemma_with_dave_first(before.catalog);
    let ms = with_dave(before.catalog);
    let pool = ms[0].stock_pool;
    if !pool.contains(item_id) {
        assert(pool.push(item_id)[pool.len() as int] == item_id);
    }
    let c = after.catalog.unwrap();
    assert(c.merchants_view()[0].name == DUMPSTER_DAVE_NAME@);
}

/// What one tick does to the merchant state: a visit runs down and departs at zero; with
/// no visit, one may start (always tried when `force`, for the armed name), else nothing.
pub open spec fn tick_effect(before: MerchantState, after: MerchantState, force: bool, r: MerchantTickEvent) -> bool {
    &&& after.catalog == before.catalog
    &&& after.spawn_next_tick == before.spawn_next_tick
    &&& after.spawn_merchant_name == (if force {
        None
    } else {
        before.spawn_merchant_name
    })
    &&& ({
        let preferred = if force {
            opt_view(before.spawn_merchant_name)
        } else {
            None
        };
        match before.visit {
            Some(v) => {
                let t = if v.ticks_remaining > 0 {
                    (v.ticks_remaining - 1) as u8
                } else {
                    0u8
                };
                if t == 0 {
                    r == MerchantTickEvent::Departed && after.visit is None
                } else {
                    r == MerchantTickEvent::Tick && (after.visit matches Some(w)
                        && w.ticks_remaining == t && w.merchant_index == v.merchant_index
                        && w.merchant_name == v.merchant_name && w.stock == v.stock)
                }
            },
            None => {
                &&& (r == MerchantTickEvent::Spawned || r == MerchantTickEvent::Idle)
                &&& r == MerchantTickEvent::Spawned ==> (after.visit matches Some(w)
                    && visit_ok(before.catalog.unwrap().merchants_view(), preferred, w))
                &&& r == MerchantTickEvent::Idle ==> after.visit is None
                &&& r == MerchantTickEvent::Spawned ==> can_spawn(before.catalog, preferred)
                &&& force ==> (r == MerchantTickEvent::Spawned <==> can_spawn(
                    before.catalog,
                    preferred,
                ))
            },
        }
    })
}

impl MerchantState {
    /// Arm a forced spawn for the next tick, optionally of a named merchant. Refused while
    /// a merchant is visiting, and for a name that no catalog merchant (up to ASCII case)
    /// answers to, or whose first such merchant has nothing to sell.
    pub fn set_spawn_flag(&mut self, merchant_name: Option<String>) -> (r: Result<(), ForcedSpawnError>)
        ensures
            match spawn_flag_error(*old(self), opt_view(merchant_name)) {
                Some(e) => r == Err::<(), ForcedSpawnError>(e) && *final(self) == *old(self),
                None => r is Ok && final(self).spawn_next_tick && final(self).spawn_merchant_name
                    == merchant_name && final(self).catalog == old(self).catalog && final(self).visit
                    == old(self).visit,
            },
    {
        if self.visit.is_some() {
            return Err(ForcedSpawnError::AlreadyVisiting);
        }
        match &merchant_name {
            Some(name) => {
                match &self.catalog {
                    None => {
                        return Err(ForcedSpawnError::NoCatalog);
                    },
                    Some(catalog) => {
                        match find_named(&catalog.merchants, name.as_str()) {
                            None => {
                                return Err(ForcedSpawnError::MerchantNotFound);
                            },
                            Some(i) => {
                                proof {
                                    lemma_first_named_found(catalog.merchants_view(), name@, 0);
                                    assert(catalog.merchants_view()[i as int] == catalog.merchants@[i as int]@);
                                }
                                if catalog.merchants[i].stock_pool.len() == 0 {
                                    return Err(ForcedSpawnError::MerchantEmpty);
                                }
                            },
                        }
                    },
                }
            },
            None => {},
        }
        self.spawn_next_tick = true;
        self.spawn_merchant_name = merchant_name;
        Ok(())
    }

    pub fn first_stock_slot(&self) -> (r: Option<usize>)
        ensures
            r == (match self.visit {
                Some(v) => if v.stock@.len() > 0 {
                    Some(0usize)
                } else {
                    None
                },
                None => None,
            }),
    {
        match &self.visit {
            Some(v) => if v.stock.len() > 0 {
                Some(0)
            } else {
                None
            },
            None => None,
        }
    }

    /// Ensure a catalog exists with Dumpster Dave at index 0.
    pub fn ensure_catalog_with_dave(&mut self)
        ensures
            final(self).catalog matches Some(c) && c.merchants_view() == with_dave(old(self).catalog),
            final(self).visit == old(self).visit,
            final(self).spawn_next_tick == old(self).spawn_next_tick,
            final(self).spawn_merchant_name == old(self).spawn_merchant_name,
    {
        let cat = self.catalog.take();
        match cat {
            None => {
                let mut ms: Vec<MerchantDefinition> = Vec::new();
                ms.push(dumpster_dave_template());
                assert(ms@.map_values(|m: MerchantDefinition| m@) =~= seq![dave_view(Seq::empty())]);
                self.catalog = Some(MerchantCatalog { merchants: ms });
            },
            Some(c) => {
                if c.merchants.len() > 0 && str_eq(c.merchants[0].name.as_str(), DUMPSTER_DAVE_NAME) {
                    self.catalog = Some(c);
                } else {
                    let ms = normalize_merchants(c.merchants);
                    self.catalog = Some(MerchantCatalog { merchants: ms });
                }
            },
        }
    }

    /// Move a sold item into Dumpster Dave's stock pool (once), and take it off his table
    /// if he is the merchant visiting.
    pub fn recycle_item(&mut self, item_id: u32)
        ensures
            recycled(*old(self), *final(self), item_id),
    {
        self.ensure_catalog_with_dave();
        proof {
            lemma_with_dave_nonempty(old(self).catalog);
        }
        let cat = self.catalog.take();
        let mut c = cat.unwrap();
        let ghost ms = c.merchants_view();
        let mut dave = c.merchants.remove(DUMPSTER_DAVE_INDEX);
        assert(ms[0] == dave@);
        if !contains_u32(&dave.stock_pool, item_id) {
            dave.stock_pool.push(item_id);
        }
        let ghost rest = c.merchants@;
        c.merchants.insert(DUMPSTER_DAVE_INDEX, dave);
        assert(c.merchants_view() =~= ms.update(0, dave@));
        self.catalog = Some(c);
        let v = self.visit.take();
        match v {
            Some(mut visit) => {
                if visit.merchant_index == DUMPSTER_DAVE_INDEX {
                    visit.stock = without_value(&visit.stock, item_id);
                }
                self.visit = Some(visit);
            },
            None => {},
        }
    }
}

impl MerchantState {
    /// The merchants of the catalog that have something to sell, by index.
    fn available_indices(ms: &Vec<MerchantDefinition>) -> (r: Vec<usize>)
        ensures
            forall|k: int| 0 <= k < r@.len() ==> #[trigger] r@[k] < ms@.len() && ms@[r@[k] as int].stock_pool@.len() > 0,
            forall|i: int| 0 <= i < ms@.len() && ms@[i].stock_pool@.len() > 0 ==> r@.contains(i as usize),
            forall|k1: int, k2: int| 0 <= k1 < k2 < r@.len() ==> r@[k1] < r@[k2],
    {
        let mut out: Vec<usize> = Vec::new();
        let mut i: usize = 0;
        while i < ms.len()
            invariant
                i <= ms@.len(),
                forall|k: int| 0 <= k < out@.len() ==> #[trigger] out@[k] < i && ms@[out@[k] as int].stock_pool@.len() > 0,
                forall|j: int| 0 <= j < i && ms@[j].stock_pool@.len() > 0 ==> out@.contains(j as usize),
                forall|k1: int, k2: int| 0 <= k1 < k2 < out@.len() ==> out@[k1] < out@[k2],
            decreases ms@.len() - i,
        {
            if ms[i].stock_pool.len() > 0 {
                let ghost prev = out@;
                out.push(i);
                assert(out@[out@.len() - 1] == i);
                assert forall|j: int| 0 <= j < i + 1 && ms@[j].stock_pool@.len() > 0 implies out@.contains(
                    j as usize,
                ) by {
                    if j < i {
                        assert(prev.contains(j as usize));
                        let k = choose|k: int| 0 <= k < prev.len() && prev[k] == j as usize;
                        assert(out@[k] == j as usize);
                    }
                }
            }
            i += 1;
        }
        out
    }

    /// Draw a visit from the catalog: a stocked merchant (the first stocked one answering
    /// to `preferred`, or a random one), a random stay, and a random display from its pool.
    fn try_spawn_visit(&self, preferred: Option<&str>) -> (r: Option<MerchantVisit>)
        ensures
            r is Some <==> can_spawn(self.catalog, match preferred {
                Some(n) => Some(n@),
                None => None,
            }),
            r matches Some(v) ==> visit_ok(self.catalog.unwrap().merchants_view(), match preferred {
                Some(n) => Some(n@),
                None => None,
            }, v),
    {
        let catalog = match &self.catalog {
            Some(c) => c,
            None => {
                return None;
            },
        };
        let ghost ms = catalog.merchants_view();
        let available = Self::available_indices(&catalog.merchants);
        if available.len() == 0 {
            proof {
                if has_available(ms) {
                    let i = choose|i: int| 0 <= i < ms.len() && #[trigger] ms[i].stock_pool.len() > 0;
                    assert(ms[i] == catalog.merchants@[i]@);
                    assert(available@.contains(i as usize));
                }
            }
            return None;
        }
        proof {
            assert(available@[0] < catalog.merchants@.len());
            assert(ms[available@[0] as int] == catalog.merchants@[available@[0] as int]@);
            assert(ms[available@[0] as int].stock_pool.len() > 0);
            assert(has_available(ms));
        }
        let merchant_index = match preferred {
            Some(name) => {
                match find_available_named(&catalog.merchants, name) {
                    Some(i) => {
                        proof {
                            lemma_first_available_found(ms, name@, 0);
                            assert(ms[i as int] == catalog.merchants@[i as int]@);
                        }
                        i
                    },
                    None => {
                        return None;
                    },
                }
            },
            None => {
                match choose_usize(&available) {
                    Some(i) => i,
                    None => {
                        return None;
                    },
                }
            },
        };
        proof {
            assert(available@.contains(merchant_index));
            assert(ms[merchant_index as int] == catalog.merchants@[merchant_index as int]@);
        }
        let merchant = &catalog.merchants[merchant_index];
        let sample_count = if MERCHANT_VISIT_STOCK_SIZE < merchant.stock_pool.len() {
            MERCHANT_VISIT_STOCK_SIZE
        } else {
            merchant.stock_pool.len()
        };
        let stock = choose_multiple_u32(&merchant.stock_pool, sample_count);
        let ticks = gen_range_u8(MERCHANT_STAY_TICKS_MIN, MERCHANT_STAY_TICKS_MAX);
        Some(
            MerchantVisit {
                merchant_index,
                merchant_name: merchant.name.clone(),
                ticks_remaining: ticks,
                stock,
            },
        )
    }
}

/// One tick with the chance roll known: as `tick_effect`, and with nobody visiting, a
/// forced tick or a won roll spawns a visit exactly when the catalog allows one, while an
/// unforced tick with a lost roll spawns nothing.
pub open spec fn tick_effect_rolled(
    before: MerchantState,
    after: MerchantState,
    force: bool,
    roll: bool,
    r: MerchantTickEvent,
) -> bool {
    &&& tick_effect(before, after, force, r)
    &&& before.visit is None && (force || roll) ==> (r == MerchantTickEvent::Spawned <==> can_spawn(
        before.catalog,
        if force {
            opt_view(before.spawn_merchant_name)
        } else {
            None
        },
    ))
    &&& before.visit is None && !force && !roll ==> r == MerchantTickEvent::Idle && after.visit is None
}

impl MerchantState {
    /// One tick of the guild hall's merchant. A visiting merchant's stay counts down and
    /// it departs at zero. With nobody visiting, a forced tick spawns a visit whenever the
    /// catalog allows one (preferring the armed merchant name, which the forced tick
    /// consumes); an ordinary tick spawns one by chance, one in five.
    pub fn advance_tick(&mut self, force: bool) -> (r: MerchantTickEvent)
        ensures
            tick_effect(*old(self), *final(self), force, r),
    {
        let roll = if self.visit.is_none() && !force {
            gen_ratio(MERCHANT_VISIT_CHANCE_NUMERATOR, MERCHANT_VISIT_CHANCE_DENOMINATOR)
        } else {
            false
        };
        self.advance_tick_rolled(force, roll)
    }

    /// One tick of the guild hall's merchant with the chance roll of an unforced tick
    /// given (`roll`: did the one-in-five draw come up). A forced tick ignores the roll.
    pub fn advance_tick_rolled(&mut self, force: bool, roll: bool) -> (r: MerchantTickEvent)
        ensures
            tick_effect_rolled(*old(self), *final(self), force, roll, r),
    {
        let preferred_name: Option<String> = if force {
            self.spawn_merchant_name.take()
        } else {
            None
        };
        if self.visit.is_none() {
            if force || roll {
                let spawned = match &preferred_name {
                    Some(name) => self.try_spawn_visit(Some(name.as_str())),
                    None => self.try_spawn_visit(None),
                };
                if let Some(visit) = spawned {
                    self.visit = Some(visit);
                    return MerchantTickEvent::Spawned;
                }
            }
            return MerchantTickEvent::Idle;
        }
        let v = self.visit.take();
        let mut visit = v.unwrap();
        visit.ticks_remaining = visit.ticks_remaining.saturating_sub(1);
        if visit.ticks_remaining == 0 {
            return MerchantTickEvent::Departed;
        }
        self.visit = Some(visit);
        MerchantTickEvent::Tick
    }
}

/// Why a purchase of the item in `slot` is refused before any money changes hands.
pub open spec fn buy_precheck(state: MerchantState, slot: usize, player: Player, registry: ItemRegistry) -> Option<BuyError> {
    match state.visit {
        None => Some(BuyError::SoldOut),
        Some(v) => if slot >= v.stock@.len() {
            Some(BuyError::InvalidSlot)
        } else {
            match lookup(registry.items@, v.stock@[slot as int]) {
                None => Some(BuyError::SoldOut),
                Some(item) => if player.cash < item.value {
                    Some(BuyError::InsufficientFunds)
                } else if player.stash@.len() >= crate::game::domain::stash::STASH_CAPACITY {
                    Some(BuyError::StashFull)
                } else {
                    None
                },
            }
        },
    }
}

/// What buying the item in `slot` answers: the precheck's refusal, a full stash when the
/// stash already holds that id, else the item.
pub open spec fn buy_result(state: MerchantState, slot: usize, player: Player, registry: ItemRegistry) -> Result<Item, BuyError> {
    match buy_precheck(state, slot, player, registry) {
        Some(e) => Err(e),
        None => {
            let id = state.visit.unwrap().stock@[slot as int];
            if player.stash@.contains(id) {
                Err(BuyError::StashFull)
            } else {
                Ok(lookup(registry.items@, id).unwrap())
            }
        },
    }
}

/// How buying the item in `slot` changes the merchant and the player. A refused purchase
/// changes nothing; past the precheck the price is taken; a completed one puts the id in
/// the stash and takes it off the table and out of the merchant's pool.
pub open spec fn buy_applied(
    before: MerchantState,
    after: MerchantState,
    pb: Player,
    pa: Player,
    slot: usize,
    registry: ItemRegistry,
) -> bool {
    &&& pa.chud == pb.chud
    &&& pa.discord_user_id == pb.discord_user_id
    &&& match buy_precheck(before, slot, pb, registry) {
        Some(e) => after == before && pa.cash == pb.cash && pa.stash@ == pb.stash@,
        None => {
            let v = before.visit.unwrap();
            let id = v.stock@[slot as int];
            let item = lookup(registry.items@, id).unwrap();
            &&& pa.cash == pb.cash - item.value
            &&& if pb.stash@.contains(id) {
                &&& pa.stash@ == pb.stash@
                &&& after == before
            } else {
                &&& pa.stash@ == pb.stash@.push(id)
                &&& after.visit matches Some(w) && w.stock@ == v.stock@.remove(slot as int)
                    && w.merchant_index == v.merchant_index && w.merchant_name == v.merchant_name
                    && w.ticks_remaining == v.ticks_remaining
                &&& after.spawn_next_tick == before.spawn_next_tick
                &&& after.spawn_merchant_name == before.spawn_merchant_name
                &&& match before.catalog {
                    None => after.catalog is None,
                    Some(c) => after.catalog matches Some(d) && d.merchants_view() == (
                    if v.merchant_index < c.merchants@.len() {
                        c.merchants_view().update(
                            v.merchant_index as int,
                            MerchantDefinitionView {
                                stock_pool: remove_value(
                                    c.merchants_view()[v.merchant_index as int].stock_pool,
                                    id,
                                ),
                                ..c.merchants_view()[v.merchant_index as int]
                            },
                        )
                    } else {
                        c.merchants_view()
                    }),
                }
            }
        },
    }
}

impl MerchantState {
    /// Buy the item displayed in `slot`: the price leaves the player's cash, the item joins
    /// the stash and leaves the merchant's table and pool. Refused for no visit or a stale
    /// id (sold out), a slot past the table, too little cash, or a full stash. An id the
    /// stash already holds is refused as a full stash after the price was taken.
    pub fn buy(&mut self, slot: usize, player: &mut Player, registry: &ItemRegistry) -> (r: Result<Item, BuyError>)
        ensures
            r == buy_result(*old(self), slot, *old(player), *registry),
            buy_applied(*old(self), *final(self), *old(player), *final(player), slot, *registry),
    {
        let (id, price) = match &self.visit {
            None => {
                return Err(BuyError::SoldOut);
            },
            Some(visit) => {
                if slot >= visit.stock.len() {
                    return Err(BuyError::InvalidSlot);
                }
                let id = visit.stock[slot];
                match registry.get(id) {
                    None => {
                        return Err(BuyError::SoldOut);
                    },
                    Some(item) => (id, item.value),
                }
            },
        };
        if player.cash < price {
            return Err(BuyError::InsufficientFunds);
        }
        if !player.stash.has_room() {
            return Err(BuyError::StashFull);
        }
        player.cash = player.cash - price;
        match player.stash.push(id) {
            Ok(()) => {},
            Err(_) => {
                return Err(BuyError::StashFull);
            },
        }
        let mut visit = self.visit.take().unwrap();
        visit.stock.remove(slot);
        let merchant_index = visit.merchant_index;
        self.visit = Some(visit);
        let cat = self.catalog.take();
        match cat {
            None => {},
            Some(mut c) => {
                if merchant_index < c.merchants.len() {
                    let ghost ms = c.merchants_view();
                    let mut m = c.merchants.remove(merchant_index);
                    assert(ms[merchant_index as int] == m@);
                    m.stock_pool = without_value(&m.stock_pool, id);
                    c.merchants.insert(merchant_index, m);
                    assert(c.merchants_view() =~= ms.update(merchant_index as int, m@));
                }
                self.catalog = Some(c);
            },
        }
        let awarded = match registry.get(id) {
            Some(item) => item.clone(),
            None => {
                proof {
                    assert(false);
                }
                return Err(BuyError::SoldOut);
            },
        };
        Ok(awarded)
    }
}

/// Once Dumpster Dave stands first, he stays first.
pub proof fn lemma_with_dave_first(catalog: Option<MerchantCatalog>)
    ensures
        with_dave(catalog).len() > 0,
        with_dave(catalog)[0].name == DUMPSTER_DAVE_NAME@,
        (catalog matches Some(c) && c.merchants@.len() > 0 && c.merchants@[0].name@ == DUMPSTER_DAVE_NAME@)
            ==> with_dave(catalog) == catalog.unwrap().merchants_view(),
{
    match catalog {
        None => {},
        Some(c) => {
            if c.merchants@.len() > 0 && c.merchants@[0].name@ == DUMPSTER_DAVE_NAME@ {
                assert(c.merchants_view()[0] == c.merchants@[0]@);
            }
        },
    }
}

proof fn lemma_with_dave_nonempty(catalog: Option<MerchantCatalog>)
    ensures
        with_dave(catalog).len() > 0,
{
    match catalog {
        None => {},
        Some(c) => {
            if !(c.merchants@.len() > 0 && c.merchants@[0].name@ == DUMPSTER_DAVE_NAME@) {
                assert(normalized(c.merchants_view()).len() > 0);
            }
        },
    }
}

/// Index of the first merchant at or after `i` whose name is exactly `name`.
pub open spec fn first_exact_from(ms: Seq<MerchantDefinitionView>, name: Seq<char>, i: int) -> Option<int>
    decreases ms.len() - i,
{
    if i < 0 || i >= ms.len() {
        None
    } else if ms[i].name == name {
        Some(i)
    } else {
        first_exact_from(ms, name, i + 1)
    }
}

/// Dumpster Dave's pool as the roster holds it: that of the first merchant by his name.
pub open spec fn dave_pool(ms: Seq<MerchantDefinitionView>) -> Seq<u32> {
    match first_exact_from(ms, DUMPSTER_DAVE_NAME@, 0) {
        Some(i) => ms[i].stock_pool,
        None => Seq::empty(),
    }
}

/// The roster without any merchant named Dumpster Dave, in order.
pub open spec fn without_dave(ms: Seq<MerchantDefinitionView>) -> Seq<MerchantDefinitionView>
    decreases ms.len(),
{
    if ms.len() == 0 {
        Seq::empty()
    } else {
        let prev = without_dave(ms.drop_last());
        if ms.last().name == DUMPSTER_DAVE_NAME@ {
            prev
        } else {
            prev.push(ms.last())
        }
    }
}

/// The roster with Dumpster Dave (keeping his pool) first and everyone else after him.
pub open spec fn normalized(ms: Seq<MerchantDefinitionView>) -> Seq<MerchantDefinitionView> {
    seq![dave_view(dave_pool(ms))] + without_dave(ms)
}

/// The roster once Dumpster Dave is made sure to stand first.
pub open spec fn with_dave(catalog: Option<MerchantCatalog>) -> Seq<MerchantDefinitionView> {
    match catalog {
        None => seq![dave_view(Seq::empty())],
        Some(c) => if c.merchants@.len() > 0 && c.merchants@[0].name@ == DUMPSTER_DAVE_NAME@ {
            c.merchants_view()
        } else {
            normalized(c.merchants_view())
        },
    }
}

/// The sequence without any occurrence of `x`, in order.
pub open spec fn remove_value(s: Seq<u32>, x: u32) -> Seq<u32>
    decreases s.len(),
{
    if s.len() == 0 {
        Seq::empty()
    } else {
        let prev = remove_value(s.drop_last(), x);
        if s.last() == x {
            prev
        } else {
            prev.push(s.last())
        }
    }
}

/// The ids of `v` other than `x`, in order.
pub fn without_value(v: &Vec<u32>, x: u32) -> (r: Vec<u32>)
    ensures
        r@ == remove_value(v@, x),
{
    let mut out: Vec<u32> = Vec::new();
    let mut i: usize = 0;
    while i < v.len()
        invariant
            i <= v@.len(),
            out@ == remove_value(v@.subrange(0, i as int), x),
        decreases v@.len() - i,
    {
        assert(v@.subrange(0, i + 1).drop_last() =~= v@.subrange(0, i as int));
        if v[i] != x {
            out.push(v[i]);
        }
        i += 1;
    }
    assert(v@.subrange(0, i as int) =~= v@);
    out
}

fn contains_u32(v: &Vec<u32>, x: u32) -> (r: bool)
    ensures
        r == v@.contains(x),
{
    let mut i: usize = 0;
    while i < v.len()
        invariant
            i <= v@.len(),
            forall|j: int| 0 <= j < i ==> v@[j] != x,
        decreases v@.len() - i,
    {
        if v[i] == x {
            return true;
        }
        i += 1;
    }
    false
}

fn find_named(ms: &Vec<MerchantDefinition>, name: &str) -> (r: Option<usize>)
    ensures
        match r {
            Some(i) => first_named_from(ms@.map_values(|m: MerchantDefinition| m@), name@, 0) == Some(
                i as int,
            ),
            None => first_named_from(ms@.map_values(|m: MerchantDefinition| m@), name@, 0) is None,
        },
{
    let ghost mv = ms@.map_values(|m: MerchantDefinition| m@);
    let mut i: usize = 0;
    while i < ms.len()
        invariant
            i <= ms@.len(),
            mv == ms@.map_values(|m: MerchantDefinition| m@),
            first_named_from(mv, name@, 0) == first_named_from(mv, name@, i as int),
        decreases ms@.len() - i,
    {
        assert(mv[i as int] == ms@[i as int]@);
        if eq_ignore_case(ms[i].name.as_str(), name) {
            return Some(i);
        }
        i += 1;
    }
    None
}

fn find_available_named(ms: &Vec<MerchantDefinition>, name: &str) -> (r: Option<usize>)
    ensures
        match r {
            Some(i) => first_available_named_from(ms@.map_values(|m: MerchantDefinition| m@), name@, 0)
                == Some(i as int),
            None => first_available_named_from(ms@.map_values(|m: MerchantDefinition| m@), name@, 0) is None,
        },
{
    let ghost mv = ms@.map_values(|m: MerchantDefinition| m@);
    let mut i: usize = 0;
    while i < ms.len()
        invariant
            i <= ms@.len(),
            mv == ms@.map_values(|m: MerchantDefinition| m@),
            first_available_named_from(mv, name@, 0) == first_available_named_from(mv, name@, i as int),
        decreases ms@.len() - i,
    {
        assert(mv[i as int] == ms@[i as int]@);
        if ms[i].stock_pool.len() > 0 && eq_ignore_case(ms[i].name.as_str(), name) {
            return Some(i);
        }
        i += 1;
    }
    None
}

proof fn lemma_first_available_found(ms: Seq<MerchantDefinitionView>, name: Seq<char>, i: int)
    requires
        0 <= i,
    ensures
        first_available_named_from(ms, name, i) matches Some(k) ==> i <= k < ms.len()
            && ms[k].stock_pool.len() > 0,
    decreases ms.len() - i,
{
    if i < ms.len() && !(ms[i].stock_pool.len() > 0 && eq_ignore_ascii_case(ms[i].name, name)) {
        lemma_first_available_found(ms, name, i + 1);
    }
}

fn find_exact(ms: &Vec<MerchantDefinition>, name: &str) -> (r: Option<usize>)
    ensures
        match r {
            Some(i) => first_exact_from(ms@.map_values(|m: MerchantDefinition| m@), name@, 0) == Some(
                i as int,
            ),
            None => first_exact_from(ms@.map_values(|m: MerchantDefinition| m@), name@, 0) is None,
        },
{
    let ghost mv = ms@.map_values(|m: MerchantDefinition| m@);
    let mut i: usize = 0;
    while i < ms.len()
        invariant
            i <= ms@.len(),
            mv == ms@.map_values(|m: MerchantDefinition| m@),
            first_exact_from(mv, name@, 0) == first_exact_from(mv, name@, i as int),
        decreases ms@.len() - i,
    {
        assert(mv[i as int] == ms@[i as int]@);
        if str_eq(ms[i].name.as_str(), name) {
            return Some(i);
        }
        i += 1;
    }
    None
}

proof fn lemma_first_exact_found(ms: Seq<MerchantDefinitionView>, name: Seq<char>, i: int)
    requires
        0 <= i,
    ensures
        first_exact_from(ms, name, i) matches Some(k) ==> i <= k < ms.len(),
    decreases ms.len() - i,
{
    if i < ms.len() && ms[i].name != name {
        lemma_first_exact_found(ms, name, i + 1);
    }
}

proof fn lemma_first_named_found(ms: Seq<MerchantDefinitionView>, name: Seq<char>, i: int)
    requires
        0 <= i,
    ensures
        first_named_from(ms, name, i) matches Some(k) ==> i <= k < ms.len(),
    decreases ms.len() - i,
{
    if i < ms.len() && !eq_ignore_ascii_case(ms[i].name, name) {
        lemma_first_named_found(ms, name, i + 1);
    }
}

/// Dumpster Dave's stock pool as the roster holds it.
pub fn dave_stock_pool(merchants: &Vec<MerchantDefinition>) -> (r: Vec<u32>)
    ensures
        r@ == dave_pool(merchants@.map_values(|m: MerchantDefinition| m@)),
{
    let ghost mv = merchants@.map_values(|m: MerchantDefinition| m@);
    match find_exact(merchants, DUMPSTER_DAVE_NAME) {
        Some(i) => {
            proof {
                lemma_first_exact_found(mv, DUMPSTER_DAVE_NAME@, 0);
                assert(mv[i as int] == merchants@[i as int]@);
            }
            merchants[i].stock_pool.clone()
        },
        None => Vec::new(),
    }
}

/// The roster without any merchant named Dumpster Dave, in order.
pub fn drop_daves(merchants: Vec<MerchantDefinition>) -> (r: Vec<MerchantDefinition>)
    ensures
        r@.map_values(|m: MerchantDefinition| m@) == without_dave(
            merchants@.map_values(|m: MerchantDefinition| m@),
        ),
{
    let ghost mv = merchants@.map_values(|m: MerchantDefinition| m@);
    let mut rest = merchants;
    let mut others: Vec<MerchantDefinition> = Vec::new();
    let ghost mut done: int = 0;
    while rest.len() > 0
        invariant
            0 <= done <= mv.len(),
            rest@.map_values(|m: MerchantDefinition| m@) == mv.subrange(done, mv.len() as int),
            others@.map_values(|m: MerchantDefinition| m@) == without_dave(mv.subrange(0, done)),
        decreases rest@.len(),
    {
        proof {
            lemma_merchants_head(rest@);
        }
        let m = rest.remove(0);
        assert(mv.subrange(0, done + 1).drop_last() =~= mv.subrange(0, done));
        assert(mv[done] == m@);
        if !str_eq(m.name.as_str(), DUMPSTER_DAVE_NAME) {
            let ghost before = others@.map_values(|m: MerchantDefinition| m@);
            others.push(m);
            assert(others@.map_values(|m: MerchantDefinition| m@) =~= before.push(mv[done]));
        }
        proof {
            done = done + 1;
        }
        assert(rest@.map_values(|m: MerchantDefinition| m@) =~= mv.subrange(done, mv.len() as int));
    }
    assert(mv.subrange(0, done) =~= mv);
    others
}

/// The roster with Dumpster Dave first, keeping his pool, and every other merchant after
/// him in their order.
pub fn normalize_merchants(merchants: Vec<MerchantDefinition>) -> (r: Vec<MerchantDefinition>)
    ensures
        r@.map_values(|m: MerchantDefinition| m@) == normalized(
            merchants@.map_values(|m: MerchantDefinition| m@),
        ),
{
    let ghost mv = merchants@.map_values(|m: MerchantDefinition| m@);
    let pool = dave_stock_pool(&merchants);
    let mut others = drop_daves(merchants);
    let mut dave = dumpster_dave_template();
    dave.stock_pool = pool;
    let ghost ov = others@.map_values(|m: MerchantDefinition| m@);
    others.insert(DUMPSTER_DAVE_INDEX, dave);
    assert(others@.map_values(|m: MerchantDefinition| m@) =~= seq![dave_view(dave_pool(mv))] + ov);
    others
}

proof fn lemma_merchants_head(v: Seq<MerchantDefinition>)
    requires
        v.len() > 0,
    ensures
        v.map_values(|m: MerchantDefinition| m@).len() == v.len(),
        v.map_values(|m: MerchantDefinition| m@)[0] == v[0]@,
        v.remove(0).map_values(|m: MerchantDefinition| m@) == v.map_values(
            |m: MerchantDefinition| m@,
        ).drop_first(),
{
    assert(v.remove(0).map_values(|m: MerchantDefinition| m@) =~= v.map_values(
        |m: MerchantDefinition| m@,
    ).drop_first());
}

} // verus!
