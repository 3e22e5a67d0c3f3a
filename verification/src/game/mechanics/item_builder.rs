//! The integer parts of rolling a new item: its kind, its subtype, the cap of its stat
//! bonuses, and how a rolled stat bonus is written.

use vstd::prelude::*;

use crate::game::domain::item::{parse_stat_floor, parse_stat_modifier, stat_floor, stat_modifier, ItemStats, ItemType};
use crate::rng::{gen_range_u32, gen_range_usize};
use crate::text::{dec, owned, push_dec};

verus! {

/// The body parts a gear item can be for.
pub open spec fn gear_subtypes() -> Seq<Seq<char>> {
    seq!["helmet"@, "chest"@, "legs"@, "feet"@, "hands"@]
}

/// The subtypes a misc item can be.
pub open spec fn misc_subtypes() -> Seq<Seq<char>> {
    seq!["trinket"@]
}

/// An item kind by a roll of 0, 1 or 2: gear, weapon, or (for 2 and above) misc.
pub open spec fn item_type_of_roll(roll: u32) -> ItemType {
    if roll == 0 {
        ItemType::Gear
    } else if roll == 1 {
        ItemType::Weapon
    } else {
        ItemType::Misc
    }
}

pub fn item_type_for_roll(roll: u32) -> (r: ItemType)
    ensures
        r == item_type_of_roll(roll),
{
    if roll == 0 {
        ItemType::Gear
    } else if roll == 1 {
        ItemType::Weapon
    } else {
        ItemType::Misc
    }
}

/// Roll an item's kind, each of the three equally likely.
pub fn roll_item_type() -> (r: ItemType)
    ensures
        exists|roll: u32| roll <= 2 && r == item_type_of_roll(roll),
{
    let roll = gen_range_u32(0, 2);
    item_type_for_roll(roll)
}

/// How many subtypes an item kind draws from: five body parts for gear, one for misc,
/// none for weapons (which have no subtype).
pub open spec fn subtype_count(item_type: ItemType) -> nat {
    match item_type {
        ItemType::Gear => gear_subtypes().len(),
        ItemType::Weapon => 0,
        ItemType::Misc => misc_subtypes().len(),
    }
}

/// The subtype picked by `pick`: the `pick`-th gear or misc subtype, empty for a weapon.
pub open spec fn subtype_of_pick(item_type: ItemType, pick: nat) -> Seq<char> {
    match item_type {
        ItemType::Gear => gear_subtypes()[pick as int],
        ItemType::Weapon => Seq::empty(),
        ItemType::Misc => misc_subtypes()[pick as int],
    }
}

pub fn subtype_for_pick(item_type: ItemType, pick: usize) -> (r: String)
    requires
        item_type == ItemType::Weapon || pick < subtype_count(item_type),
    ensures
        r@ == subtype_of_pick(item_type, pick as nat),
{
    proof {
        reveal_strlit("helmet");
        reveal_strlit("chest");
        reveal_strlit("legs");
        reveal_strlit("feet");
        reveal_strlit("hands");
        reveal_strlit("trinket");
    }
    match item_type {
        ItemType::Gear => {
            if pick == 0 {
                owned("helmet")
            } else if pick == 1 {
                owned("chest")
            } else if pick == 2 {
                owned("legs")
            } else if pick == 3 {
                owned("feet")
            } else {
                owned("hands")
            }
        },
        ItemType::Weapon => String::new(),
        ItemType::Misc => owned("trinket"),
    }
}

/// Roll the subtype of an item kind, each of its subtypes equally likely.
pub fn roll_subtype(item_type: ItemType) -> (r: String)
    ensures
        item_type == ItemType::Weapon ==> r@ == Seq::<char>::empty(),
        item_type != ItemType::Weapon ==> exists|pick: nat| pick < subtype_count(item_type) && r@ == subtype_of_pick(item_type, pick),
{
    match item_type {
        ItemType::Weapon => subtype_for_pick(item_type, 0),
        ItemType::Gear => {
            let pick = gen_range_usize(0, 4);
            subtype_for_pick(item_type, pick)
        },
        ItemType::Misc => {
            let pick = gen_range_usize(0, 0);
            subtype_for_pick(item_type, pick)
        },
    }
}

/// The largest stat bonus an item of this difficulty rolls: half the difficulty, at least 1.
pub fn item_stat_cap(difficulty: u8) -> (r: u8)
    ensures
        r == (if difficulty / 2 >= 1 {
            difficulty / 2
        } else {
            1
        }),
{
    let half = difficulty / 2;
    if half >= 1 {
        half
    } else {
        1
    }
}

/// A rolled stat bonus as written: `+n` or `-n` for a roll modifier, `n` for a floor.
pub open spec fn stat_bonus_text(signed: bool, plus: bool, magnitude: u8) -> Seq<char> {
    if signed {
        (if plus {
            "+"@
        } else {
            "-"@
        }) + dec(magnitude as nat)
    } else {
        dec(magnitude as nat)
    }
}

pub fn format_stat_bonus(signed: bool, plus: bool, magnitude: u8) -> (r: String)
    ensures
        r@ == stat_bonus_text(signed, plus, magnitude),
{
    let mut s = if !signed {
        String::new()
    } else if plus {
        owned("+")
    } else {
        owned("-")
    };
    push_dec(&mut s, magnitude as u64);
    s
}

/// A stat with no effect, as rolled items write it.
pub fn neutral_stat_text() -> (r: String)
    ensures
        r@ == "-"@,
{
    owned("-")
}


/// Does a stat text help a roll: a floor above zero, or a modifier that raises it?
pub open spec fn positive_stat(s: Seq<char>) -> bool {
    stat_floor(s) > 0 || stat_modifier(s) > 0
}

/// Does an item help at least one of its stats?
pub open spec fn has_positive(stats: ItemStats) -> bool {
    positive_stat(stats.strength@) || positive_stat(stats.smarts@) || positive_stat(stats.stealth@)
}

fn is_positive_stat(s: &str) -> (r: bool)
    ensures
        r == positive_stat(s@),
{
    parse_stat_floor(s) > 0 || parse_stat_modifier(s) > 0
}

pub fn has_positive_stat(stats: &ItemStats) -> (r: bool)
    ensures
        r == has_positive(*stats),
{
    is_positive_stat(stats.strength.as_str()) || is_positive_stat(stats.smarts.as_str())
        || is_positive_stat(stats.stealth.as_str())
}

/// The rolled stats of a new item, made sure to help somewhere: kept as rolled when one of
/// them already helps; else the stat picked by `which` (0 strength, 1 smarts, 2 and above
/// stealth) becomes `positive`, the bonus rolled for that case.
pub open spec fn completed_stats(rolled: ItemStats, positive: String, which: u8) -> ItemStats {
    if has_positive(rolled) {
        rolled
    } else if which == 0 {
        ItemStats { strength: positive, ..rolled }
    } else if which == 1 {
        ItemStats { smarts: positive, ..rolled }
    } else {
        ItemStats { stealth: positive, ..rolled }
    }
}

pub fn complete_item_stats(rolled: ItemStats, positive: String, which: u8) -> (r: ItemStats)
    ensures
        r == completed_stats(rolled, positive, which),
        positive_stat(positive@) ==> has_positive(r),
{
    if has_positive_stat(&rolled) {
        return rolled;
    }
    let mut stats = rolled;
    if which == 0 {
        stats.strength = positive;
    } else if which == 1 {
        stats.smarts = positive;
    } else {
        stats.stealth = positive;
    }
    stats
}

/// Every rolled item helps somewhere, whatever its three stats rolled, once completed with
/// a helping bonus: a bonus `+n` or `n` with `n` at least 1 helps.
pub proof fn lemma_completed_item_helps(rolled: ItemStats, signed: bool, magnitude: u8, which: u8, positive: String)
    requires
        magnitude >= 1,
        positive@ == stat_bonus_text(signed, true, magnitude),
    ensures
        has_positive(completed_stats(rolled, positive, which)),
{
    lemma_bonus_helps(signed, magnitude);
}

/// A bonus `+n` (a modifier) or `n` (a floor) with `n` at least 1 helps its stat.
pub proof fn lemma_bonus_helps(signed: bool, magnitude: u8)
    requires
        magnitude >= 1,
    ensures
        positive_stat(stat_bonus_text(signed, true, magnitude)),
{
    crate::game::domain::item::lemma_stat_text_of_bonus(signed, magnitude);
    reveal_strlit("+");
    assert("+"@ =~= seq!['+']);
}

} // verus!
