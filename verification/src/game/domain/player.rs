use vstd::prelude::*;

use crate::game::domain::episode_stats::{money_after, EpisodeStats};
use crate::game::domain::item::{equipped_sentence, EquipmentSlot, Item, ItemType};
use crate::game::domain::quest_result::QuestResult;
use crate::game::domain::stash::Stash;
use crate::text::{dec, push_char, push_dec, push_str};

verus! {

/// Highest level a stat can reach.
pub const MAX_STAT: u8 = 10;

/// Wins required to advance a combat stat one level = STAT_LEVEL_BASE × current_level.
/// A "win" is a trial passed using that specific stat.
pub const STAT_LEVEL_BASE: u32 = 3;

/// Quests passed required to advance experience one level = EXP_LEVEL_BASE × current_level.
/// Only successful quest completions count; failures do not.
pub const EXP_LEVEL_BASE: u32 = 2;

#[derive(Debug, Default, Clone, Copy, PartialEq, Eq, Structural)]
pub struct LevelUp {
    pub str_up: bool,
    pub smt_up: bool,
    pub sth_up: bool,
    pub exp_up: bool,
}

impl LevelUp {
    pub fn any(&self) -> (r: bool)
        ensures
            r == (self.str_up || self.smt_up || self.sth_up || self.exp_up),
    {
        self.str_up || self.smt_up || self.sth_up || self.exp_up
    }
}

#[derive(Debug, Clone, Copy, Default)]
pub struct ChudEquipment {
    pub gear: Option<u32>,
    pub weapon: Option<u32>,
    pub misc: [Option<u32>; 2],
}

pub open spec fn opt_seq(o: Option<u32>) -> Seq<u32> {
    match o {
        Some(x) => seq![x],
        None => Seq::empty(),
    }
}

impl ChudEquipment {
    /// The id in a slot.
    pub open spec fn slot_value(self, slot: EquipmentSlot) -> Option<u32> {
        match slot {
            EquipmentSlot::Gear => self.gear,
            EquipmentSlot::Weapon => self.weapon,
            EquipmentSlot::Misc0 => self.misc[0],
            EquipmentSlot::Misc1 => self.misc[1],
        }
    }

    /// The equipment with one slot replaced.
    pub open spec fn with_slot(self, slot: EquipmentSlot, v: Option<u32>) -> ChudEquipment {
        match slot {
            EquipmentSlot::Gear => ChudEquipment { gear: v, ..self },
            EquipmentSlot::Weapon => ChudEquipment { weapon: v, ..self },
            EquipmentSlot::Misc0 => ChudEquipment { misc: [v, self.misc[1]], ..self },
            EquipmentSlot::Misc1 => ChudEquipment { misc: [self.misc[0], v], ..self },
        }
    }

    /// Equipped ids in slot order: gear, weapon, then the two misc slots.
    pub open spec fn ids(self) -> Seq<u32> {
        opt_seq(self.gear) + opt_seq(self.weapon) + opt_seq(self.misc[0]) + opt_seq(self.misc[1])
    }

    /// Slot an item of this type goes to when equipped from the stash: misc items take the
    /// first empty misc slot, or the first one when both are full.
    pub open spec fn equip_slot(self, item_type: ItemType) -> EquipmentSlot {
        match item_type {
            ItemType::Gear => EquipmentSlot::Gear,
            ItemType::Weapon => EquipmentSlot::Weapon,
            ItemType::Misc => if self.misc[0] is None {
                EquipmentSlot::Misc0
            } else if self.misc[1] is None {
                EquipmentSlot::Misc1
            } else {
                EquipmentSlot::Misc0
            },
        }
    }

    /// An empty slot that can hold this type, if any.
    pub open spec fn empty_slot(self, item_type: ItemType) -> Option<EquipmentSlot> {
        match item_type {
            ItemType::Gear => if self.gear is None {
                Some(EquipmentSlot::Gear)
            } else {
                None
            },
            ItemType::Weapon => if self.weapon is None {
                Some(EquipmentSlot::Weapon)
            } else {
                None
            },
            ItemType::Misc => if self.misc[0] is None {
                Some(EquipmentSlot::Misc0)
            } else if self.misc[1] is None {
                Some(EquipmentSlot::Misc1)
            } else {
                None
            },
        }
    }

    /// All equipped ids, gear → weapon → misc slots.
    pub fn all_ids(&self) -> (r: Vec<u32>)
        ensures
            r@ == self.ids(),
    {
        let mut v: Vec<u32> = Vec::new();
        if let Some(x) = self.gear {
            v.push(x);
        }
        if let Some(x) = self.weapon {
            v.push(x);
        }
        if let Some(x) = self.misc[0] {
            v.push(x);
        }
        if let Some(x) = self.misc[1] {
            v.push(x);
        }
        assert(v@ =~= self.ids());
        v
    }

    pub fn item_id_in_slot(&self, slot: EquipmentSlot) -> (r: Option<u32>)
        ensures
            r == self.slot_value(slot),
    {
        *self.slot_ref(slot)
    }

    pub fn slot_ref(&self, slot: EquipmentSlot) -> (r: &Option<u32>)
        ensures
            *r == self.slot_value(slot),
    {
        match slot {
            EquipmentSlot::Gear => &self.gear,
            EquipmentSlot::Weapon => &self.weapon,
            EquipmentSlot::Misc0 => &self.misc[0],
            EquipmentSlot::Misc1 => &self.misc[1],
        }
    }

    /// The slot itself, for writing.
    pub fn slot_mut(&mut self, slot: EquipmentSlot) -> (r: &mut Option<u32>)
        ensures
            *r == old(self).slot_value(slot),
            final(self).slot_value(slot) == *final(r),
            forall|s: EquipmentSlot| s != slot ==> #[trigger] final(self).slot_value(s) == old(self).slot_value(s),
    {
        match slot {
            EquipmentSlot::Gear => &mut self.gear,
            EquipmentSlot::Weapon => &mut self.weapon,
            EquipmentSlot::Misc0 => &mut self.misc[0],
            EquipmentSlot::Misc1 => &mut self.misc[1],
        }
    }

    /// Replaces the id in `slot`, returning the previous one.
    pub fn set_slot(&mut self, slot: EquipmentSlot, v: Option<u32>) -> (r: Option<u32>)
        ensures
            r == old(self).slot_value(slot),
            *final(self) == old(self).with_slot(slot, v),
    {
        let prev = self.item_id_in_slot(slot);
        match slot {
            EquipmentSlot::Gear => {
                self.gear = v;
            },
            EquipmentSlot::Weapon => {
                self.weapon = v;
            },
            EquipmentSlot::Misc0 => {
                self.misc = [v, self.misc[1]];
            },
            EquipmentSlot::Misc1 => {
                self.misc = [self.misc[0], v];
            },
        }
        prev
    }

    /// The slot an item of this type is equipped into.
    pub fn slot_for_item_type(&self, item_type: ItemType) -> (r: EquipmentSlot)
        ensures
            r == self.equip_slot(item_type),
    {
        match item_type {
            ItemType::Gear => EquipmentSlot::Gear,
            ItemType::Weapon => EquipmentSlot::Weapon,
            ItemType::Misc => {
                if self.misc[0].is_none() {
                    EquipmentSlot::Misc0
                } else if self.misc[1].is_none() {
                    EquipmentSlot::Misc1
                } else {
                    EquipmentSlot::Misc0
                }
            },
        }
    }

    /// An empty slot that can hold an item of this type.
    pub fn empty_slot_for_item_type(&self, item_type: ItemType) -> (r: Option<EquipmentSlot>)
        ensures
            r == self.empty_slot(item_type),
    {
        match item_type {
            ItemType::Gear => if self.gear.is_none() {
                Some(EquipmentSlot::Gear)
            } else {
                None
            },
            ItemType::Weapon => if self.weapon.is_none() {
                Some(EquipmentSlot::Weapon)
            } else {
                None
            },
            ItemType::Misc => if self.misc[0].is_none() {
                Some(EquipmentSlot::Misc0)
            } else if self.misc[1].is_none() {
                Some(EquipmentSlot::Misc1)
            } else {
                None
            },
        }
    }
}

#[derive(Debug)]
pub struct Chud {
    pub name: String,
    pub description: String,
    pub strength: u8,
    pub smarts: u8,
    pub stealth: u8,
    pub experience: u8,
    pub str_successes: u32,
    pub smt_successes: u32,
    pub sth_successes: u32,
    pub job_successes: u32,
    pub total_job_successes: u32,
    pub total_job_failures: u32,
    pub equipment: ChudEquipment,
}

impl Clone for Chud {
    fn clone(&self) -> (r: Self)
        ensures
            r == *self,
    {
        Chud {
            name: self.name.clone(),
            description: self.description.clone(),
            strength: self.strength,
            smarts: self.smarts,
            stealth: self.stealth,
            experience: self.experience,
            str_successes: self.str_successes,
            smt_successes: self.smt_successes,
            sth_successes: self.sth_successes,
            job_successes: self.job_successes,
            total_job_successes: self.total_job_successes,
            total_job_failures: self.total_job_failures,
            equipment: self.equipment,
        }
    }
}

#[derive(Debug)]
pub struct Player {
    pub discord_user_id: u64,
    pub cash: u32,
    pub stash: Stash,
    pub chud: Option<Chud>,
}

impl Clone for Player {
    fn clone(&self) -> (r: Self)
        ensures
            r.discord_user_id == self.discord_user_id,
            r.cash == self.cash,
            r.stash@ == self.stash@,
            r.chud == self.chud,
    {
        let chud = match &self.chud {
            Some(c) => Some(c.clone()),
            None => None,
        };
        Player {
            discord_user_id: self.discord_user_id,
            cash: self.cash,
            stash: self.stash.clone(),
            chud,
        }
    }
}

/// `label raw` when gear leaves the stat alone, else `label ~~raw~~ effective`.
pub open spec fn stat_value_text(label: Seq<char>, raw: u8, effective: u8) -> Seq<char> {
    if raw != effective {
        label + " ~~"@ + dec(raw as nat) + "~~ "@ + dec(effective as nat)
    } else {
        label + " "@ + dec(raw as nat)
    }
}

fn format_stat_value(label: &str, raw: u8, effective: u8) -> (r: String)
    ensures
        r@ == stat_value_text(label@, raw, effective),
{
    let mut s = crate::text::owned(label);
    if raw != effective {
        push_str(&mut s, " ~~");
        push_dec(&mut s, raw as u64);
        push_str(&mut s, "~~ ");
        push_dec(&mut s, effective as u64);
    } else {
        push_char(&mut s, ' ');
        push_dec(&mut s, raw as u64);
        assert(" "@ =~= seq![' ']) by {
            reveal_strlit(" ");
        }
    }
    assert(s@ =~= stat_value_text(label@, raw, effective));
    s
}

/// Level a stat after `wins` more successes: the counter grows, and when it reaches
/// `base × level` (below the cap) the level rises by one and the threshold is spent.
pub open spec fn wins_applied(val: u8, counter: u32, wins: u32, base: u32) -> (u8, u32, bool) {
    let c = counter + wins;
    let threshold = base * val;
    if c >= threshold && val < MAX_STAT {
        ((val + 1) as u8, (c - threshold) as u32, true)
    } else {
        (val, c as u32, false)
    }
}

fn apply_wins(val: &mut u8, counter: &mut u32, wins: u32, base: u32) -> (r: bool)
    requires
        *old(counter) + wins <= u32::MAX,
        base <= 3,
    ensures
        (*final(val), *final(counter), r) == wins_applied(*old(val), *old(counter), wins, base),
{
    *counter = *counter + wins;
    let v32 = *val as u32;
    assert(base * v32 <= 3 * 255) by (nonlinear_arith)
        requires
            base <= 3,
            v32 <= 255,
    ;
    let threshold = base * v32;
    if *counter >= threshold && *val < MAX_STAT {
        *val = *val + 1;
        *counter = *counter - threshold;
        true
    } else {
        false
    }
}

/// The chud after a quest: each combat stat levels from its wins, and a passed quest
/// counts toward experience.
pub open spec fn chud_after_quest(c: Chud, str_wins: u32, smt_wins: u32, sth_wins: u32, passed: bool) -> (Chud, LevelUp) {
    let s = wins_applied(c.strength, c.str_successes, str_wins, STAT_LEVEL_BASE);
    let m = wins_applied(c.smarts, c.smt_successes, smt_wins, STAT_LEVEL_BASE);
    let t = wins_applied(c.stealth, c.sth_successes, sth_wins, STAT_LEVEL_BASE);
    let e = if passed {
        wins_applied(c.experience, c.job_successes, 1, EXP_LEVEL_BASE)
    } else {
        (c.experience, c.job_successes, false)
    };
    (
        Chud {
            strength: s.0,
            str_successes: s.1,
            smarts: m.0,
            smt_successes: m.1,
            stealth: t.0,
            sth_successes: t.1,
            experience: e.0,
            job_successes: e.1,
            total_job_successes: if passed {
                (c.total_job_successes + 1) as u32
            } else {
                c.total_job_successes
            },
            total_job_failures: if passed {
                c.total_job_failures
            } else {
                (c.total_job_failures + 1) as u32
            },
            ..c
        },
        LevelUp { str_up: s.2, smt_up: m.2, sth_up: t.2, exp_up: e.2 },
    )
}

/// The job record after a quest: a failed job adds one failure and leaves the completed
/// jobs, the experience and its progress untouched; a passed job adds one completed job,
/// leaves the failures, and counts toward experience (which rises by at most one level,
/// and only up to the cap). The combat stats never move by more than one level either.
pub proof fn lemma_job_record(c: Chud, str_wins: u32, smt_wins: u32, sth_wins: u32, passed: bool)
    requires
        c.total_job_successes < u32::MAX,
        c.total_job_failures < u32::MAX,
        c.job_successes < u32::MAX,
    ensures
        ({
            let (n, l) = chud_after_quest(c, str_wins, smt_wins, sth_wins, passed);
            &&& !passed ==> {
                &&& n.total_job_failures == c.total_job_failures + 1
                &&& n.total_job_successes == c.total_job_successes
                &&& n.job_successes == c.job_successes
                &&& n.experience == c.experience
                &&& !l.exp_up
            }
            &&& passed ==> {
                &&& n.total_job_successes == c.total_job_successes + 1
                &&& n.total_job_failures == c.total_job_failures
                &&& (n.experience == c.experience || n.experience == c.experience + 1)
                &&& (l.exp_up <==> n.experience == c.experience + 1)
                &&& l.exp_up ==> c.experience < MAX_STAT
            }
            &&& n.strength == c.strength || n.strength == c.strength + 1
            &&& n.smarts == c.smarts || n.smarts == c.smarts + 1
            &&& n.stealth == c.stealth || n.stealth == c.stealth + 1
            &&& n.name == c.name && n.description == c.description
        }),
{
}

/// Bio followed by one sentence per equipped item that has one, space separated.
pub open spec fn description_with(base: Seq<char>, items: Seq<Item>) -> Seq<char>
    decreases items.len(),
{
    if items.len() == 0 {
        base
    } else {
        let prev = description_with(base, items.drop_last());
        match equipped_sentence(items.last()) {
            Some(sentence) => if prev.len() > 0 {
                prev.push(' ') + sentence
            } else {
                sentence
            },
            None => prev,
        }
    }
}

impl Player {
    pub open spec fn chud_of(self) -> Chud {
        self.chud.unwrap()
    }

    pub fn has_chud(&self) -> (r: bool)
        ensures
            r == (self.chud is Some),
    {
        self.chud.is_some()
    }

    /// The player's chud, for writing.
    pub fn chud_mut(&mut self) -> (r: &mut Chud)
        requires
            old(self).chud is Some,
        ensures
            *r == old(self).chud_of(),
            *final(self) == (Player { chud: Some(*final(r)), ..*old(self) }),
    {
        self.chud.as_mut().unwrap()
    }

    pub fn chud_ref(&self) -> (r: &Chud)
        requires
            self.chud is Some,
        ensures
            *r == self.chud_of(),
    {
        self.chud.as_ref().unwrap()
    }

    /// Credit cash and optionally record the earning against episode stats.
    pub fn earn_cash(&mut self, amount: u32, stats: &mut Option<EpisodeStats>)
        requires
            *old(stats) matches Some(s) ==> s.wf(),
        ensures
            amount == 0 ==> *final(self) == *old(self) && *final(stats) == *old(stats),
            amount > 0 ==> final(self).cash == (if old(self).cash + amount > u32::MAX {
                u32::MAX as int
            } else {
                old(self).cash + amount
            }),
            final(self).discord_user_id == old(self).discord_user_id,
            final(self).stash == old(self).stash,
            final(self).chud == old(self).chud,
            amount > 0 ==> match *old(stats) {
                Some(s) => if old(self).chud is Some {
                    *final(stats) matches Some(n) && n.story == s.story && n.records
                        == s.records && n.hospital == s.hospital && money_after(
                        s.money.by_chud@,
                        n.money.by_chud@,
                        old(self).discord_user_id,
                        old(self).chud_of().name@,
                        amount,
                            0,
                    )
                } else {
                    *final(stats) == Some(s)
                },
                None => *final(stats) is None,
            },
            *final(stats) matches Some(s) ==> s.wf(),
    {
        if amount == 0 {
            return ;
        }
        self.cash = self.cash.saturating_add(amount);
        if let Some(st) = stats {
            if self.has_chud() {
                let name = &self.chud_ref().name;
                st.record_money_earned(self.discord_user_id, name.as_str(), amount);
            }
        }
    }

    /// Debit cash when affordable and optionally record the spend against episode stats.
    pub fn try_spend_cash(&mut self, amount: u32, stats: &mut Option<EpisodeStats>) -> (r: bool)
        requires
            *old(stats) matches Some(s) ==> s.wf(),
        ensures
            r == (amount == 0 || old(self).cash >= amount),
            !r || amount == 0 ==> *final(self) == *old(self) && *final(stats) == *old(stats),
            r ==> final(self).cash == old(self).cash - amount,
            final(self).discord_user_id == old(self).discord_user_id,
            final(self).stash == old(self).stash,
            final(self).chud == old(self).chud,
            r && amount > 0 ==> match *old(stats) {
                Some(s) => if old(self).chud is Some {
                    *final(stats) matches Some(n) && n.story == s.story && n.records
                        == s.records && n.hospital == s.hospital && money_after(
                        s.money.by_chud@,
                        n.money.by_chud@,
                        old(self).discord_user_id,
                        old(self).chud_of().name@,
                        0,
                            amount,
                    )
                } else {
                    *final(stats) == Some(s)
                },
                None => *final(stats) is None,
            },
            *final(stats) matches Some(s) ==> s.wf(),
    {
        if amount == 0 {
            return true;
        }
        if self.cash < amount {
            return false;
        }
        self.cash = self.cash - amount;
        if let Some(st) = stats {
            if self.has_chud() {
                let name = &self.chud_ref().name;
                st.record_money_spent(self.discord_user_id, name.as_str(), amount);
            }
        }
        true
    }

    pub fn format_job_record(&self) -> (r: String)
        requires
            self.chud is Some,
        ensures
            r@ == dec(self.chud_of().total_job_successes as nat) + " job completed, "@ + dec(
                self.chud_of().total_job_failures as nat,
            ) + " failed"@,
    {
        let chud = self.chud_ref();
        let mut s = String::new();
        push_dec(&mut s, chud.total_job_successes as u64);
        push_str(&mut s, " job completed, ");
        push_dec(&mut s, chud.total_job_failures as u64);
        push_str(&mut s, " failed");
        assert(s@ =~= dec(self.chud_of().total_job_successes as nat) + " job completed, "@ + dec(
            self.chud_of().total_job_failures as nat,
        ) + " failed"@);
        s
    }

    /// Base chud bio plus one sentence per equipped item (gear → weapon → misc slots).
    pub fn generate_description(&self, equipped_items: &Vec<Item>) -> (r: String)
        requires
            self.chud is Some,
        ensures
            r@ == description_with(self.chud_of().description@, equipped_items@),
    {
        let mut out = self.chud_ref().description.clone();
        let mut i: usize = 0;
        while i < equipped_items.len()
            invariant
                self.chud is Some,
                i <= equipped_items@.len(),
                out@ == description_with(
                    self.chud_of().description@,
                    equipped_items@.subrange(0, i as int),
                ),
            decreases equipped_items@.len() - i,
        {
            let ghost pre = equipped_items@.subrange(0, i as int);
            assert(equipped_items@.subrange(0, i + 1).drop_last() =~= pre);
            assert(equipped_items@.subrange(0, i + 1).last() == equipped_items@[i as int]);
            if let Some(sentence) = equipped_items[i].equipped_description_sentence() {
                if out.as_str().unicode_len() > 0 {
                    push_char(&mut out, ' ');
                }
                push_str(&mut out, sentence.as_str());
            }
            i += 1;
        }
        assert(equipped_items@.subrange(0, equipped_items@.len() as int) =~= equipped_items@);
        out
    }

    pub open spec fn effective_stats_text(self, effective: (u8, u8, u8)) -> Seq<char> {
        let c = self.chud_of();
        stat_value_text("Strength"@, c.strength, effective.0) + ", "@ + stat_value_text(
            "Smarts"@,
            c.smarts,
            effective.1,
        ) + ", "@ + stat_value_text("Stealth"@, c.stealth, effective.2) + ", Experience "@ + dec(
            c.experience as nat,
        )
    }

    /// Equipment-adjusted stat values; strikethrough on raw values when gear modifies them.
    pub fn format_effective_stats(&self, effective: (u8, u8, u8)) -> (r: String)
        requires
            self.chud is Some,
        ensures
            r@ == self.effective_stats_text(effective),
    {
        let chud = self.chud_ref();
        let mut s = format_stat_value("Strength", chud.strength, effective.0);
        push_str(&mut s, ", ");
        let b = format_stat_value("Smarts", chud.smarts, effective.1);
        push_str(&mut s, b.as_str());
        push_str(&mut s, ", ");
        let c = format_stat_value("Stealth", chud.stealth, effective.2);
        push_str(&mut s, c.as_str());
        push_str(&mut s, ", Experience ");
        push_dec(&mut s, chud.experience as u64);
        assert(s@ =~= self.effective_stats_text(effective));
        s
    }

    pub fn format_effective_stats_line(&self, effective: (u8, u8, u8)) -> (r: String)
        requires
            self.chud is Some,
        ensures
            r@ == "Stats: "@ + self.effective_stats_text(effective),
    {
        let mut s = crate::text::owned("Stats: ");
        let t = self.format_effective_stats(effective);
        push_str(&mut s, t.as_str());
        s
    }

    /// Apply a finished quest to the chud's stat counters and levels.
    pub fn record_quest(&mut self, result: &QuestResult) -> (r: LevelUp)
        requires
            old(self).chud is Some,
            old(self).chud_of().str_successes + result.stat_win_counts().0 <= u32::MAX,
            old(self).chud_of().smt_successes + result.stat_win_counts().1 <= u32::MAX,
            old(self).chud_of().sth_successes + result.stat_win_counts().2 <= u32::MAX,
            old(self).chud_of().job_successes < u32::MAX,
            old(self).chud_of().total_job_successes < u32::MAX,
            old(self).chud_of().total_job_failures < u32::MAX,
        ensures
            final(self).chud is Some,
            (final(self).chud_of(), r) == chud_after_quest(
                old(self).chud_of(),
                result.stat_win_counts().0,
                result.stat_win_counts().1,
                result.stat_win_counts().2,
                result.passed,
            ),
            final(self).discord_user_id == old(self).discord_user_id,
            final(self).cash == old(self).cash,
            final(self).stash == old(self).stash,
    {
        let (str_wins, smt_wins, sth_wins) = result.stat_wins();
        let mut chud = self.chud.take().unwrap();
        let str_up = apply_wins(
            &mut chud.strength,
            &mut chud.str_successes,
            str_wins,
            STAT_LEVEL_BASE,
        );
        let smt_up = apply_wins(&mut chud.smarts, &mut chud.smt_successes, smt_wins, STAT_LEVEL_BASE);
        let sth_up = apply_wins(
            &mut chud.stealth,
            &mut chud.sth_successes,
            sth_wins,
            STAT_LEVEL_BASE,
        );
        let exp_up = if result.passed {
            chud.total_job_successes = chud.total_job_successes + 1;
            apply_wins(&mut chud.experience, &mut chud.job_successes, 1, EXP_LEVEL_BASE)
        } else {
            chud.total_job_failures = chud.total_job_failures + 1;
            false
        };
        self.chud = Some(chud);
        LevelUp { str_up, smt_up, sth_up, exp_up }
    }
}

/// Create a new chud for the given Discord user. All stats start at 1.
pub fn create_chud(discord_user_id: u64, name: String, description: String) -> (r: Player)
    ensures
        r == (Player {
            discord_user_id,
            cash: 0,
            stash: r.stash,
            chud: Some(
                Chud {
                    name,
                    description,
                    strength: 1,
                    smarts: 1,
                    stealth: 1,
                    experience: 1,
                    str_successes: 0,
                    smt_successes: 0,
                    sth_successes: 0,
                    job_successes: 0,
                    total_job_successes: 0,
                    total_job_failures: 0,
                    equipment: ChudEquipment { gear: None, weapon: None, misc: [None, None] },
                },
            ),
        }),
        r.stash@.len() == 0,
{
    Player {
        discord_user_id,
        cash: 0,
        stash: Stash::from_items(Vec::new()),
        chud: Some(
            Chud {
                name,
                description,
                strength: 1,
                smarts: 1,
                stealth: 1,
                experience: 1,
                str_successes: 0,
                smt_successes: 0,
                sth_successes: 0,
                job_successes: 0,
                total_job_successes: 0,
                total_job_failures: 0,
                equipment: ChudEquipment { gear: None, weapon: None, misc: [None, None] },
            },
        ),
    }
}

} // verus!
