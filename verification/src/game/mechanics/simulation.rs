use vstd::prelude::*;

use crate::game::domain::item::{stat_floor, stat_modifier, Item, ItemStats};
use crate::game::domain::player::Player;
use crate::game::domain::quest::TrialStats;
use crate::game::generation::quest_generator::{GeneratedQuest, QuestData};
use crate::game::mechanics::quest_builder::{PlayedQuest, StatChoice, TrialOutcome};
use crate::game::persistence::item_registry::{lookup, ItemRegistry};
use crate::rng::{gen_range_u8, gen_range_usize};

verus! {

pub const MIN_STAT: u8 = 1;

pub const MAX_STAT: u8 = 10;

/// The stat text an item gives for one stat.
pub open spec fn stat_text(stats: ItemStats, k: StatChoice) -> Seq<char> {
    match k {
        StatChoice::Strength => stats.strength@,
        StatChoice::Smarts => stats.smarts@,
        StatChoice::Stealth => stats.stealth@,
    }
}

/// The registered items among the equipped ids, in slot order.
pub open spec fn equipped_items(ids: Seq<u32>, items: Seq<Item>) -> Seq<Item>
    decreases ids.len(),
{
    if ids.len() == 0 {
        Seq::empty()
    } else {
        let prev = equipped_items(ids.drop_last(), items);
        match lookup(items, ids.last()) {
            Some(item) => prev.push(item),
            None => prev,
        }
    }
}

/// Sum of the items' modifiers for one stat.
pub open spec fn modifier_total(items: Seq<Item>, k: StatChoice) -> int
    decreases items.len(),
{
    if items.len() == 0 {
        0
    } else {
        modifier_total(items.drop_last(), k) + stat_modifier(stat_text(items.last().stats, k)) as int
    }
}

/// Sum of the items' floors for one stat, saturating at 255.
pub open spec fn floor_total(items: Seq<Item>, k: StatChoice) -> u8
    decreases items.len(),
{
    if items.len() == 0 {
        0
    } else {
        let s = floor_total(items.drop_last(), k) + stat_floor(stat_text(items.last().stats, k));
        if s > 255 {
            255
        } else {
            s as u8
        }
    }
}

pub open spec fn clamp_stat(v: int) -> u8 {
    if v < MIN_STAT {
        MIN_STAT
    } else if v > MAX_STAT {
        MAX_STAT
    } else {
        v as u8
    }
}

/// The player's gear as the registry knows it.
pub open spec fn gear_of(player: Player, registry: ItemRegistry) -> Seq<Item> {
    equipped_items(player.chud_of().equipment.ids(), registry.items@)
}

/// A stat after item modifiers, kept within `MIN_STAT..=MAX_STAT`.
pub open spec fn effective_stat_spec(player: Player, registry: ItemRegistry, k: StatChoice) -> u8 {
    clamp_stat(k.stat_of(player) + modifier_total(gear_of(player, registry), k))
}

pub fn item_stat_text(stats: &ItemStats, k: StatChoice) -> (r: &String)
    ensures
        r@ == stat_text(*stats, k),
{
    match k {
        StatChoice::Strength => &stats.strength,
        StatChoice::Smarts => &stats.smarts,
        StatChoice::Stealth => &stats.stealth,
    }
}

/// The registered items the chud has equipped, in slot order.
pub(crate) fn equipped<'a>(player: &Player, registry: &'a ItemRegistry) -> (r: Vec<&'a Item>)
    requires
        player.chud is Some,
    ensures
        r@.map_values(|i: &Item| *i) == gear_of(*player, *registry),
{
    let ids = player.chud_ref().equipment.all_ids();
    let mut out: Vec<&Item> = Vec::new();
    let mut i: usize = 0;
    while i < ids.len()
        invariant
            i <= ids@.len(),
            ids@ == player.chud_of().equipment.ids(),
            out@.map_values(|i: &Item| *i) == equipped_items(ids@.subrange(0, i as int), registry.items@),
        decreases ids@.len() - i,
    {
        assert(ids@.subrange(0, i + 1).drop_last() =~= ids@.subrange(0, i as int));
        let ghost before = out@.map_values(|i: &Item| *i);
        match registry.get(ids[i]) {
            Some(item) => {
                out.push(item);
                assert(out@.map_values(|i: &Item| *i) =~= before.push(*item));
            },
            None => {},
        }
        i += 1;
    }
    assert(ids@.subrange(0, i as int) =~= ids@);
    out
}

/// Sum of the modifiers of `items[..n]` for one stat, within `i32`.
proof fn lemma_modifier_total_bounds(items: Seq<Item>, k: StatChoice)
    ensures
        -32768 * items.len() <= modifier_total(items, k) <= 32767 * items.len(),
    decreases items.len(),
{
    if items.len() > 0 {
        lemma_modifier_total_bounds(items.drop_last(), k);
    }
}

fn modifier_sum(items: &Vec<&Item>, k: StatChoice) -> (r: i32)
    requires
        items@.len() <= 4,
    ensures
        r == modifier_total(items@.map_values(|i: &Item| *i), k),
{
    let ghost iv = items@.map_values(|i: &Item| *i);
    let mut total: i32 = 0;
    let mut j: usize = 0;
    while j < items.len()
        invariant
            j <= items@.len(),
            items@.len() <= 4,
            iv == items@.map_values(|i: &Item| *i),
            total == modifier_total(iv.subrange(0, j as int), k),
        decreases items@.len() - j,
    {
        assert(iv.subrange(0, j + 1).drop_last() =~= iv.subrange(0, j as int));
        assert(iv[j as int] == *items@[j as int]);
        proof {
            lemma_modifier_total_bounds(iv.subrange(0, j as int), k);
        }
        let m = crate::game::domain::item::parse_stat_modifier(item_stat_text(&items[j].stats, k).as_str());
        total = total + m as i32;
        j += 1;
    }
    assert(iv.subrange(0, j as int) =~= iv);
    total
}

fn floor_sum(items: &Vec<&Item>, k: StatChoice) -> (r: u8)
    ensures
        r == floor_total(items@.map_values(|i: &Item| *i), k),
{
    let ghost iv = items@.map_values(|i: &Item| *i);
    let mut total: u8 = 0;
    let mut j: usize = 0;
    while j < items.len()
        invariant
            j <= items@.len(),
            iv == items@.map_values(|i: &Item| *i),
            total == floor_total(iv.subrange(0, j as int), k),
        decreases items@.len() - j,
    {
        assert(iv.subrange(0, j + 1).drop_last() =~= iv.subrange(0, j as int));
        assert(iv[j as int] == *items@[j as int]);
        let f = crate::game::domain::item::parse_stat_floor(item_stat_text(&items[j].stats, k).as_str());
        total = total.saturating_add(f);
        j += 1;
    }
    assert(iv.subrange(0, j as int) =~= iv);
    total
}

proof fn lemma_gear_len(player: Player, registry: ItemRegistry)
    ensures
        gear_of(player, registry).len() <= 4,
{
    lemma_equipped_len(player.chud_of().equipment.ids(), registry.items@);
}

proof fn lemma_equipped_len(ids: Seq<u32>, items: Seq<Item>)
    ensures
        equipped_items(ids, items).len() <= ids.len(),
    decreases ids.len(),
{
    if ids.len() > 0 {
        lemma_equipped_len(ids.drop_last(), items);
    }
}

fn clamp_i32(v: i32) -> (r: u8)
    ensures
        r == clamp_stat(v as int),
{
    if v < MIN_STAT as i32 {
        MIN_STAT
    } else if v > MAX_STAT as i32 {
        MAX_STAT
    } else {
        v as u8
    }
}

/// Each stat plus the modifiers of the equipped registered items, kept within
/// `MIN_STAT..=MAX_STAT`.
pub fn effective_stats(player: &Player, registry: &ItemRegistry) -> (r: (u8, u8, u8))
    requires
        player.chud is Some,
    ensures
        r == (
            effective_stat_spec(*player, *registry, StatChoice::Strength),
            effective_stat_spec(*player, *registry, StatChoice::Smarts),
            effective_stat_spec(*player, *registry, StatChoice::Stealth),
        ),
{
    let items = equipped(player, registry);
    proof {
        lemma_gear_len(*player, *registry);
        lemma_modifier_total_bounds(gear_of(*player, *registry), StatChoice::Strength);
        lemma_modifier_total_bounds(gear_of(*player, *registry), StatChoice::Smarts);
        lemma_modifier_total_bounds(gear_of(*player, *registry), StatChoice::Stealth);
    }
    let chud = player.chud_ref();
    let a = clamp_i32(chud.strength as i32 + modifier_sum(&items, StatChoice::Strength));
    let b = clamp_i32(chud.smarts as i32 + modifier_sum(&items, StatChoice::Smarts));
    let c = clamp_i32(chud.stealth as i32 + modifier_sum(&items, StatChoice::Stealth));
    (a, b, c)
}

fn effective_stat(player: &Player, registry: &ItemRegistry, stat: StatChoice) -> (r: u8)
    requires
        player.chud is Some,
    ensures
        r == effective_stat_spec(*player, *registry, stat),
{
    let (s, m, t) = effective_stats(player, registry);
    match stat {
        StatChoice::Strength => s,
        StatChoice::Smarts => m,
        StatChoice::Stealth => t,
    }
}

/// Floor and modifier the chud's gear gives a roll of one stat.
pub fn roll_aids(player: &Player, registry: &ItemRegistry, stat: StatChoice) -> (r: (u8, i32))
    requires
        player.chud is Some,
    ensures
        r.0 == floor_total(gear_of(*player, *registry), stat),
        r.1 == modifier_total(gear_of(*player, *registry), stat),
{
    let items = equipped(player, registry);
    proof {
        lemma_gear_len(*player, *registry);
    }
    (floor_sum(&items, stat), modifier_sum(&items, stat))
}

/// One trial rolled with the given draws: the gear modifier moves the roll (never below
/// one, kept to a byte), the gear floor raises it, and it passes when it meets the trial's.
pub open spec fn outcome_ok(o: TrialOutcome, stats: TrialStats, k: StatChoice, player: Player, registry: ItemRegistry) -> bool {
    let floor = floor_total(gear_of(player, registry), k);
    let modifier = modifier_total(gear_of(player, registry), k);
    let after = {
        let v = o.raw_roll + modifier;
        (if v < 1 {
            1
        } else {
            v
        }) as u8
    };
    &&& o.stats == stats
    &&& o.stat_used == k
    &&& o.roll_modifier == modifier
    &&& 1 <= o.raw_roll <= k.stat_of(player)
    &&& o.player_roll == (if after < floor {
        floor
    } else {
        after
    })
    &&& o.floor_applied == (modifier == 0 && o.player_roll > after)
    &&& o.required == k.required_of(stats)
    &&& 1 <= o.trial_roll <= k.required_of(stats) + 1
    &&& o.player_stat == effective_stat_spec(player, registry, k)
    &&& o.passed == (o.player_roll >= o.trial_roll)
}

/// Can every stat of the chud, with its gear, be rolled without leaving the ranges the
/// rolls are kept in?
pub open spec fn rollable(player: Player, registry: ItemRegistry) -> bool {
    &&& player.chud is Some
    &&& forall|k: StatChoice| #![auto] {
        &&& k.stat_of(player) >= 1
        &&& -32768 <= modifier_total(gear_of(player, registry), k)
        &&& modifier_total(gear_of(player, registry), k) + k.stat_of(player) <= 32767
    }
}

/// What a played quest holds: for each trial that both the rolled stats and the written
/// trials give, in order, an outcome rolled with the chosen stat; every outcome but the
/// last passed; and it ends early only at a failure.
pub open spec fn played_by(
    r: PlayedQuest,
    quest: QuestData,
    generated: GeneratedQuest,
    player: Player,
    registry: ItemRegistry,
    choices: Seq<StatChoice>,
) -> bool {
    let n = if quest.trials@.len() < generated.trials@.len() {
        quest.trials@.len()
    } else {
        generated.trials@.len()
    };
    &&& r.outcomes@.len() <= n
    &&& forall|i: int| 0 <= i < r.outcomes@.len() ==> #[trigger] outcome_ok(r.outcomes@[i], quest.trials@[i], choices[i], player, registry)
    &&& forall|i: int| 0 <= i < r.outcomes@.len() - 1 ==> #[trigger] r.outcomes@[i].passed
    &&& r.outcomes@.len() < n ==> r.outcomes@.len() > 0 && !r.outcomes@.last().passed
}

/// The gear lifts every roll of a played quest: each trial's player roll is at least the
/// (saturating) sum of the roll floors the equipped registered items give the chosen stat,
/// and, when the raw roll plus the gear's modifier fits a byte, at least that and at least 1;
/// it is one of the two (the floor or the modified roll). The floor counts as applied
/// exactly when there is no modifier and the floor raised the raw roll; a trial passes
/// exactly when the player roll reaches the trial roll; and the raw roll stays within the
/// chud's base stat.
pub proof fn lemma_gear_lifts_rolls(
    r: PlayedQuest,
    quest: QuestData,
    generated: GeneratedQuest,
    player: Player,
    registry: ItemRegistry,
    choices: Seq<StatChoice>,
)
    requires
        played_by(r, quest, generated, player, registry, choices),
    ensures
        forall|i: int| 0 <= i < r.outcomes@.len() ==> {
            let o = #[trigger] r.outcomes@[i];
            let floor = floor_total(gear_of(player, registry), o.stat_used);
            let moved = o.raw_roll + o.roll_modifier;
            &&& o.player_roll >= floor
            &&& moved <= 255 ==> o.player_roll >= 1
            &&& moved <= 255 ==> o.player_roll >= moved
            &&& (o.player_roll == floor || (moved < 1 && o.player_roll == 1) || o.player_roll == moved
                || moved > 255)
            &&& o.roll_modifier == modifier_total(gear_of(player, registry), o.stat_used)
            &&& o.roll_modifier == 0 ==> (o.floor_applied <==> floor > o.raw_roll)
            &&& o.roll_modifier != 0 ==> !o.floor_applied
            &&& (o.passed <==> o.player_roll >= o.trial_roll)
            &&& 1 <= o.raw_roll <= o.stat_used.stat_of(player)
        },
{
    assert forall|i: int| 0 <= i < r.outcomes@.len() implies {
        let o = #[trigger] r.outcomes@[i];
        let floor = floor_total(gear_of(player, registry), o.stat_used);
        let moved = o.raw_roll + o.roll_modifier;
        &&& o.player_roll >= floor
        &&& moved <= 255 ==> o.player_roll >= 1
        &&& moved <= 255 ==> o.player_roll >= moved
        &&& (o.player_roll == floor || (moved < 1 && o.player_roll == 1) || o.player_roll == moved
            || moved > 255)
        &&& o.roll_modifier == modifier_total(gear_of(player, registry), o.stat_used)
        &&& o.roll_modifier == 0 ==> (o.floor_applied <==> floor > o.raw_roll)
        &&& o.roll_modifier != 0 ==> !o.floor_applied
        &&& (o.passed <==> o.player_roll >= o.trial_roll)
        &&& 1 <= o.raw_roll <= o.stat_used.stat_of(player)
    } by {
        let o = r.outcomes@[i];
        assert(outcome_ok(o, quest.trials@[i], choices[i], player, registry));
        let floor = floor_total(gear_of(player, registry), o.stat_used);
        let moved = o.raw_roll + o.roll_modifier;
        let after = (if moved < 1 {
            1
        } else {
            moved
        }) as u8;
        assert(o.player_roll == (if after < floor { floor } else { after }));
        assert(o.player_roll >= floor);
        assert(1 <= moved <= 255 ==> after == moved);
        assert(moved < 1 ==> after == 1);
        assert(moved <= 255 ==> o.player_roll >= 1);
        assert(moved <= 255 ==> o.player_roll >= moved);
        if o.roll_modifier == 0 {
            assert(after == o.raw_roll);
        }
    }
}

/// An effective stat is the base stat plus the signed total of the gear's modifiers for it,
/// kept within `MIN_STAT..=MAX_STAT`: exactly that sum when it lies in the range, else the
/// nearer bound. A negative modifier lowers the stat.
pub proof fn lemma_effective_stat_adds_modifiers(player: Player, registry: ItemRegistry, k: StatChoice)
    ensures
        ({
            let v = k.stat_of(player) + modifier_total(gear_of(player, registry), k);
            let e = effective_stat_spec(player, registry, k);
            &&& MIN_STAT <= e <= MAX_STAT
            &&& MIN_STAT <= v <= MAX_STAT ==> e == v
            &&& v < MIN_STAT ==> e == MIN_STAT
            &&& v > MAX_STAT ==> e == MAX_STAT
            &&& modifier_total(gear_of(player, registry), k) < 0 && k.stat_of(player) > MIN_STAT
                && k.stat_of(player) <= MAX_STAT ==> e < k.stat_of(player)
        }),
{
}

/// The gear's modifier total is the signed sum over the items: one more item adds its own
/// modifier, whatever its sign.
pub proof fn lemma_modifier_total_push(items: Seq<Item>, item: Item, k: StatChoice)
    ensures
        modifier_total(items.push(item), k) == modifier_total(items, k) + stat_modifier(stat_text(item.stats, k)),
        modifier_total(seq![item], k) == stat_modifier(stat_text(item.stats, k)) as int,
{
    assert(items.push(item).drop_last() =~= items);
    assert(seq![item].drop_last() =~= Seq::<Item>::empty());
    assert(modifier_total(Seq::<Item>::empty(), k) == 0);
    assert(seq![item].last() == item);
}

/// The gear's floor total adds each item's roll floor, capped at 255: one more item raises
/// it by its own floor, and a single item's total is its floor.
pub proof fn lemma_floor_total_push(items: Seq<Item>, item: Item, k: StatChoice)
    ensures
        floor_total(items.push(item), k) as int == if floor_total(items, k) + stat_floor(stat_text(item.stats, k)) > 255 {
            255
        } else {
            floor_total(items, k) + stat_floor(stat_text(item.stats, k))
        },
        floor_total(seq![item], k) == stat_floor(stat_text(item.stats, k)),
        floor_total(items.push(item), k) >= floor_total(items, k),
{
    assert(items.push(item).drop_last() =~= items);
    assert(seq![item].drop_last() =~= Seq::<Item>::empty());
    assert(floor_total(Seq::<Item>::empty(), k) == 0);
    assert(seq![item].last() == item);
}

/// What `play_quest` asks of its inputs: rollable stats, a chosen stat for every trial, and
/// trial requirements below the byte's top.
pub open spec fn playable(quest: QuestData, generated: GeneratedQuest, player: Player, registry: ItemRegistry, choices: Seq<StatChoice>) -> bool {
    &&& rollable(player, registry)
    &&& choices.len() >= quest.trials@.len() || choices.len() >= generated.trials@.len()
    &&& forall|i: int| 0 <= i < quest.trials@.len() ==> #[trigger] quest.trials@[i].strength < 255
        && quest.trials@[i].smarts < 255 && quest.trials@[i].stealth < 255
}

/// Play a quest: trial by trial (as many as both the rolled stats and the written trials
/// give), roll the stat chosen for it against the trial, and stop at the first failure.
/// The stat to use for each trial is chosen beforehand and passed in `choices`.
pub fn play_quest(
    quest: &QuestData,
    generated: &GeneratedQuest,
    player: &Player,
    registry: &ItemRegistry,
    choices: &Vec<StatChoice>,
) -> (r: PlayedQuest)
    requires
        playable(*quest, *generated, *player, *registry, choices@),
    ensures
        played_by(r, *quest, *generated, *player, *registry, choices@),
{
    let n = if quest.trials.len() < generated.trials.len() {
        quest.trials.len()
    } else {
        generated.trials.len()
    };
    let mut outcomes: Vec<TrialOutcome> = Vec::new();
    let mut i: usize = 0;
    let mut failed = false;
    while i < n && !failed
        invariant
            i <= n,
            n <= quest.trials@.len(),
            n <= generated.trials@.len(),
            n <= choices@.len(),
            rollable(*player, *registry),
            forall|t: int| 0 <= t < quest.trials@.len() ==> #[trigger] quest.trials@[t].strength < 255
                && quest.trials@[t].smarts < 255 && quest.trials@[t].stealth < 255,
            outcomes@.len() == i,
            forall|t: int| 0 <= t < i ==> #[trigger] outcome_ok(outcomes@[t], quest.trials@[t], choices@[t], *player, *registry),
            forall|t: int| 0 <= t < i - 1 ==> #[trigger] outcomes@[t].passed,
            !failed ==> forall|t: int| 0 <= t < i ==> #[trigger] outcomes@[t].passed,
            failed ==> i > 0 && !outcomes@[i - 1].passed,
        decreases n - i,
    {
        let stats = quest.trials[i];
        assert(quest.trials@[i as int].strength < 255 && quest.trials@[i as int].smarts < 255
            && quest.trials@[i as int].stealth < 255);
        let stat_used = choices[i];
        let effective = effective_stat(player, registry, stat_used);
        let required = stat_used.trial_required(&stats);
        let (floor, modifier) = roll_aids(player, registry, stat_used);
        let base = stat_used.player_stat(player);
        assert(base >= 1 && -32768 <= modifier && modifier + base <= 32767);
        let raw_roll = gen_range_u8(1, base);
        let v: i32 = raw_roll as i32 + modifier;
        let after_modifier: u8 = if v < 1 {
            1
        } else {
            #[verifier::truncate]
            (v as u8)
        };
        let player_roll = if after_modifier < floor {
            floor
        } else {
            after_modifier
        };
        let floor_applied = modifier == 0 && player_roll > after_modifier;
        let trial_roll = gen_range_u8(1, required + 1);
        let passed = player_roll >= trial_roll;
        let o = TrialOutcome {
            stats,
            stat_used,
            raw_roll,
            roll_modifier: modifier as i16,
            floor_applied,
            player_roll,
            trial_roll,
            player_stat: effective,
            required,
            passed,
        };
        outcomes.push(o);
        if !passed {
            failed = true;
        }
        i += 1;
    }
    PlayedQuest { outcomes }
}


/// How far the chud's effective stat `k` stands above (or below) the trial's requirement.
pub open spec fn stat_margin(k: StatChoice, stats: TrialStats, player: Player, registry: ItemRegistry) -> int {
    effective_stat_spec(player, registry, k) - k.required_of(stats)
}

/// The stats a trial allows (a requirement above zero), in the order strength, smarts,
/// stealth.
pub open spec fn valid_stats(stats: TrialStats) -> Seq<StatChoice> {
    (if stats.strength > 0 {
        seq![StatChoice::Strength]
    } else {
        Seq::empty()
    }) + (if stats.smarts > 0 {
        seq![StatChoice::Smarts]
    } else {
        Seq::empty()
    }) + (if stats.stealth > 0 {
        seq![StatChoice::Stealth]
    } else {
        Seq::empty()
    })
}

/// The best margin among the candidates, 0 when there are none.
pub open spec fn best_margin(cands: Seq<StatChoice>, stats: TrialStats, player: Player, registry: ItemRegistry) -> int
    decreases cands.len(),
{
    if cands.len() == 0 {
        0
    } else if cands.len() == 1 {
        stat_margin(cands[0], stats, player, registry)
    } else {
        let b = best_margin(cands.drop_last(), stats, player, registry);
        let m = stat_margin(cands.last(), stats, player, registry);
        if b >= m {
            b
        } else {
            m
        }
    }
}

/// The candidates kept in mind: every one with the best margin, and each other one unless
/// its dropout draw (`dropped[k]` for the `k`-th candidate) struck it.
pub open spec fn kept_stats(
    cands: Seq<StatChoice>,
    dropped: Seq<bool>,
    best: int,
    stats: TrialStats,
    player: Player,
    registry: ItemRegistry,
) -> Seq<StatChoice>
    decreases cands.len(),
{
    if cands.len() == 0 {
        Seq::empty()
    } else {
        let rest = kept_stats(cands.drop_last(), dropped, best, stats, player, registry);
        let k = cands.len() - 1;
        if stat_margin(cands.last(), stats, player, registry) == best || !dropped[k] {
            rest.push(cands.last())
        } else {
            rest
        }
    }
}

/// The pool a trial's stat is drawn from: the kept candidates, or all valid ones when the
/// draws struck every one.
pub open spec fn stat_pool(stats: TrialStats, player: Player, registry: ItemRegistry, dropped: Seq<bool>) -> Seq<StatChoice> {
    let cands = valid_stats(stats);
    let kept = kept_stats(cands, dropped, best_margin(cands, stats, player, registry), stats, player, registry);
    if kept.len() == 0 {
        cands
    } else {
        kept
    }
}

fn margin_of(k: StatChoice, stats: &TrialStats, player: &Player, registry: &ItemRegistry) -> (r: i16)
    requires
        player.chud is Some,
    ensures
        r == stat_margin(k, *stats, *player, *registry),
{
    let e = effective_stat(player, registry, k);
    let req = k.trial_required(stats);
    e as i16 - req as i16
}

/// The pool of stats the chud weighs for a trial, given its dropout draws (one per valid
/// candidate, in order; a draw for a candidate with the best margin is not looked at).
pub fn stat_pool_for(stats: &TrialStats, player: &Player, registry: &ItemRegistry, dropped: &Vec<bool>) -> (r: Vec<StatChoice>)
    requires
        player.chud is Some,
        dropped@.len() >= valid_stats(*stats).len(),
    ensures
        r@ == stat_pool(*stats, *player, *registry, dropped@),
{
    let mut cands: Vec<StatChoice> = Vec::new();
    if stats.strength > 0 {
        cands.push(StatChoice::Strength);
    }
    if stats.smarts > 0 {
        cands.push(StatChoice::Smarts);
    }
    if stats.stealth > 0 {
        cands.push(StatChoice::Stealth);
    }
    assert(cands@ =~= valid_stats(*stats));
    let ghost cs = cands@;
    let mut best: i16 = 0;
    let mut i: usize = 0;
    while i < cands.len()
        invariant
            i <= cands@.len(),
            cs == cands@,
            player.chud is Some,
            best == best_margin(cs.subrange(0, i as int), *stats, *player, *registry),
        decreases cands@.len() - i,
    {
        let m = margin_of(cands[i], stats, player, registry);
        let ghost pre = cs.subrange(0, i as int);
        let ghost next = cs.subrange(0, i + 1);
        assert(next.drop_last() =~= pre);
        assert(next.last() == cands@[i as int]);
        if i == 0 {
            best = m;
        } else if m > best {
            best = m;
        }
        i += 1;
    }
    assert(cs.subrange(0, cs.len() as int) =~= cs);
    let mut kept: Vec<StatChoice> = Vec::new();
    let mut j: usize = 0;
    while j < cands.len()
        invariant
            j <= cands@.len(),
            cs == cands@,
            player.chud is Some,
            cs == valid_stats(*stats),
            dropped@.len() >= cs.len(),
            best == best_margin(cs, *stats, *player, *registry),
            kept@ == kept_stats(cs.subrange(0, j as int), dropped@, best as int, *stats, *player, *registry),
        decreases cands@.len() - j,
    {
        let k = cands[j];
        let m = margin_of(k, stats, player, registry);
        let ghost pre = cs.subrange(0, j as int);
        let ghost next = cs.subrange(0, j + 1);
        assert(next.drop_last() =~= pre);
        assert(next.last() == k);
        if m == best || !dropped[j] {
            kept.push(k);
        }
        j += 1;
    }
    assert(cs.subrange(0, cs.len() as int) =~= cs);
    if kept.len() == 0 {
        cands
    } else {
        kept
    }
}

/// Choose the stat a chud uses for a trial: drawn uniformly from `stat_pool_for`'s pool.
/// The trial must allow some stat (with none, the pool is empty and the draw panics).
pub fn choose_stat(stats: &TrialStats, player: &Player, registry: &ItemRegistry, dropped: &Vec<bool>) -> (r: StatChoice)
    requires
        player.chud is Some,
        stats.strength > 0 || stats.smarts > 0 || stats.stealth > 0,
        dropped@.len() >= valid_stats(*stats).len(),
    ensures
        stat_pool(*stats, *player, *registry, dropped@).contains(r),
{
    let pool = stat_pool_for(stats, player, registry, dropped);
    assert(valid_stats(*stats).len() > 0);
    let k = gen_range_usize(0, pool.len() - 1);
    assert(pool@[k as int] == pool@[k as int]);
    pool[k]
}

} // verus!
