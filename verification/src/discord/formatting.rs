use vstd::prelude::*;

use crate::discord::components_v2::{
    components_size, concat_all, message_components, packed, Component, ComponentsV2Message,
    Container, ContainerChild, Separator, TextDisplay, FLAG_IS_COMPONENTS_V2, TYPE_CONTAINER,
    TYPE_SEPARATOR, TYPE_TEXT_DISPLAY,
};
use crate::game::domain::episode_stats::{comma_join, join_lines, join_names, push_line};
use crate::game::domain::item::{Item, ItemType};
use crate::game::engine::{ItemAwardDisposition, KillResult};
use crate::game::domain::player::{LevelUp, Player};
use crate::game::domain::quest_result::{CompletedTrial, QuestResult};
use crate::game::mechanics::quest_builder::StatChoice;
use crate::game::mechanics::simulation::{effective_stat_spec, effective_stats};
use crate::game::persistence::item_registry::ItemRegistry;
use crate::text::{collapse_whitespace_chars, collapse_ws};
use crate::game::domain::graveyard::GraveyardEntry;
use crate::game::persistence::item_registry::lookup;
use crate::discord::components_v2::FLAG_EPHEMERAL;
use crate::text::{dec, join_with, lines, owned, push_char, push_dec, push_joined, push_str, str_eq, strings_view, text_lines};

verus! {

/// Each line of `text` with the Discord subtext prefix (`-# `), joined by newlines.
pub open spec fn subtext_text(text: Seq<char>) -> Seq<char> {
    join_with(lines(text).map_values(|l: Seq<char>| "-# "@ + l), "\n"@)
}

pub fn subtext_lines(text: &str) -> (r: String)
    ensures
        r@ == subtext_text(text@),
{
    let ls = text_lines(text);
    let ghost parts = lines(text@).map_values(|l: Seq<char>| "-# "@ + l);
    let mut out = String::new();
    let mut i: usize = 0;
    while i < ls.len()
        invariant
            i <= ls@.len(),
            strings_view(ls@) == lines(text@),
            parts == lines(text@).map_values(|l: Seq<char>| "-# "@ + l),
            out@ == join_with(parts.subrange(0, i as int), "\n"@),
        decreases ls@.len() - i,
    {
        let mut line = owned("-# ");
        push_str(&mut line, ls[i].as_str());
        assert(ls@[i as int]@ == strings_view(ls@)[i as int]);
        assert(line@ =~= parts[i as int]);
        push_joined(&mut out, "\n", line.as_str(), i == 0, Ghost(parts.subrange(0, i as int)));
        assert(parts.subrange(0, i as int).push(line@) =~= parts.subrange(0, i + 1));
        i += 1;
    }
    assert(parts.subrange(0, ls@.len() as int) =~= parts);
    out
}

/// Accent colors for quest outcome containers (RGB integers).
pub const ACCENT_PASSED: u32 = 0x57F287;

pub const ACCENT_FAILED: u32 = 0xED4245;

pub const ACCENT_DEATH: u32 = 0x2F3136;

/// Marker before an item's name by rarity tier.
pub open spec fn rarity_prefix_text(rarity: Seq<char>) -> Seq<char> {
    if rarity == "uncommon"@ {
        "\u{25C7} "@
    } else if rarity == "rare"@ {
        "\u{25C6} "@
    } else if rarity == "exceptional"@ {
        "\u{2605} "@
    } else {
        ""@
    }
}

fn rarity_prefix(rarity: &str) -> (r: &'static str)
    ensures
        r@ == rarity_prefix_text(rarity@),
{
    if str_eq(rarity, "uncommon") {
        "\u{25C7} "
    } else if str_eq(rarity, "rare") {
        "\u{25C6} "
    } else if str_eq(rarity, "exceptional") {
        "\u{2605} "
    } else {
        ""
    }
}

pub open spec fn display_name_text(item: Item) -> Seq<char> {
    rarity_prefix_text(item.rarity@) + item.name@
}

/// The item's name behind its rarity marker.
pub fn format_item_display_name(item: &Item) -> (r: String)
    ensures
        r@ == display_name_text(*item),
{
    let mut s = owned(rarity_prefix(item.rarity.as_str()));
    push_str(&mut s, item.name.as_str());
    s
}

pub open spec fn item_type_text(t: ItemType) -> Seq<char> {
    match t {
        ItemType::Gear => "gear"@,
        ItemType::Weapon => "weapon"@,
        ItemType::Misc => "misc"@,
    }
}

fn item_type_label(item_type: ItemType) -> (r: &'static str)
    ensures
        r@ == item_type_text(item_type),
{
    match item_type {
        ItemType::Gear => "gear",
        ItemType::Weapon => "weapon",
        ItemType::Misc => "misc",
    }
}

/// Player-facing slot label: a misc item's own subtype when it has one, else its type.
pub open spec fn slot_label_text(item: Item) -> Seq<char> {
    if item.item_type == ItemType::Misc && item.subtype@.len() > 0 {
        item.subtype@
    } else {
        item_type_text(item.item_type)
    }
}

/// Player-facing slot label — not the body-part subtype of gear.
pub fn format_item_slot_label(item: &Item) -> (r: String)
    ensures
        r@ == slot_label_text(*item),
{
    match item.item_type {
        ItemType::Misc => {
            if item.subtype.as_str().unicode_len() > 0 {
                return item.subtype.clone();
            }
        },
        _ => {},
    }
    owned(item_type_label(item.item_type))
}

/// Player-facing slot label in parentheses, e.g. ` (gear)` or ` (trinket)`.
pub fn format_item_slot_parenthetical(item: &Item) -> (r: String)
    ensures
        r@ == " ("@ + slot_label_text(*item) + ")"@,
{
    let mut s = owned(" (");
    let label = format_item_slot_label(item);
    push_str(&mut s, label.as_str());
    push_str(&mut s, ")");
    s
}

pub open spec fn item_block_text(item: Item) -> Seq<char> {
    "**"@ + display_name_text(item) + "**"@ + (" ("@ + slot_label_text(item) + ")"@) + " ["@
        + item.stats.triplet() + "] - $"@ + dec(item.value as nat) + "\n"@ + item.description@
}

/// Name, slot, stats, price and description of an item, as the gear and shop screens show it.
pub fn format_item_block(item: &Item) -> (r: String)
    ensures
        r@ == item_block_text(*item),
{
    let mut s = owned("**");
    let name = format_item_display_name(item);
    push_str(&mut s, name.as_str());
    push_str(&mut s, "**");
    let paren = format_item_slot_parenthetical(item);
    push_str(&mut s, paren.as_str());
    push_str(&mut s, " [");
    let triplet = item.stats.format_triplet();
    push_str(&mut s, triplet.as_str());
    push_str(&mut s, "] - $");
    push_dec(&mut s, item.value as u64);
    push_str(&mut s, "\n");
    push_str(&mut s, item.description.as_str());
    s
}

pub open spec fn strs_view(names: Seq<&str>) -> Seq<Seq<char>> {
    names.map_values(|s: &str| s@)
}

/// "a", "a and b", or "a, b, and c".
pub fn oxford_join(names: &[&str]) -> (r: String)
    ensures
        r@ == join_names(strs_view(names@)),
{
    let ghost ns = strs_view(names@);
    let n = names.len();
    if n == 0 {
        return String::new();
    }
    if n == 1 {
        return owned(names[0]);
    }
    if n == 2 {
        let mut s = owned(names[0]);
        push_str(&mut s, " and ");
        push_str(&mut s, names[1]);
        return s;
    }
    let mut s = String::new();
    let mut i: usize = 0;
    while i < n - 1
        invariant
            n == names@.len(),
            n > 2,
            i <= n - 1,
            ns == strs_view(names@),
            s@ == comma_join(ns.subrange(0, i as int)),
        decreases n - 1 - i,
    {
        let ghost pre = ns.subrange(0, i as int);
        let ghost nxt = ns.subrange(0, i + 1);
        assert(nxt.drop_last() =~= pre);
        if i > 0 {
            push_str(&mut s, ", ");
        }
        push_str(&mut s, names[i]);
        i += 1;
        assert(s@ =~= comma_join(nxt));
    }
    assert(ns.subrange(0, n - 1) =~= ns.drop_last());
    push_str(&mut s, ", and ");
    push_str(&mut s, names[n - 1]);
    s
}

/// Greatest common divisor.
pub open spec fn gcd_spec(a: nat, b: nat) -> nat
    decreases b,
{
    if b == 0 {
        a
    } else {
        gcd_spec(b, a % b)
    }
}

pub fn gcd(a: u32, b: u32) -> (r: u32)
    ensures
        r == gcd_spec(a as nat, b as nat),
{
    let mut x = a;
    let mut y = b;
    while y != 0
        invariant
            gcd_spec(x as nat, y as nat) == gcd_spec(a as nat, b as nat),
        decreases y,
    {
        let t = x % y;
        x = y;
        y = t;
    }
    x
}

/// Accent of an outcome box: dark for a death, green for a pass, red for a failure.
pub open spec fn outcome_accent_spec(passed: bool, died: bool) -> u32 {
    if died {
        ACCENT_DEATH
    } else if passed {
        ACCENT_PASSED
    } else {
        ACCENT_FAILED
    }
}

pub fn outcome_accent(passed: bool, died: bool) -> (r: u32)
    ensures
        r == outcome_accent_spec(passed, died),
{
    if died {
        ACCENT_DEATH
    } else if passed {
        ACCENT_PASSED
    } else {
        ACCENT_FAILED
    }
}

/// Single-notice DM — accented container, not spoiled.
pub fn build_dm_notice_components(message: &str, passed: bool) -> (r: ComponentsV2Message)
    ensures
        r.flags == FLAG_IS_COMPONENTS_V2,
        r.components@.len() == 1,
        r.components@[0] matches Component::Container(c) && c.accent_color == Some(outcome_accent_spec(passed, false))
            && !c.spoiler && c.components@.len() == 1 && (c.components@[0] matches ContainerChild::Text(t)
            && t.content@ == message@),
{
    let mut inner: Vec<ContainerChild> = Vec::new();
    inner.push(ContainerChild::Text(TextDisplay::new(owned(message))));
    let mut v: Vec<Component> = Vec::new();
    v.push(Component::Container(Container::with_accent(outcome_accent(passed, false), inner)));
    ComponentsV2Message::channel(v)
}

/// A death notice body.
pub struct DmDeathContent {
    pub body: String,
}

impl DmDeathContent {
    pub fn plain(&self) -> (r: String)
        ensures
            r == self.body,
    {
        self.body.clone()
    }
}

/// The death notice: the flavour line announcing the death, the outcome summary when there
/// is one, the epitaph in italics, and, when the chud left money behind, the flavour line
/// about the head start, separated by blank lines. The two flavour lines come rendered by
/// the caller.
pub fn build_dm_death_content(
    kill: &KillResult,
    summary: Option<&str>,
    died_line: &str,
    benefits_line: &str,
) -> (r: DmDeathContent)
    ensures
        r.body@ == join_paragraphs(
            seq![died_line@] + (match summary {
                Some(s) => if s@.len() > 0 {
                    seq![s@]
                } else {
                    Seq::empty()
                },
                None => Seq::empty(),
            }) + seq!["*"@ + kill.epitaph@ + "*"@] + (if kill.benefits_awarded > 0 {
                seq![benefits_line@]
            } else {
                Seq::empty()
            }),
        ),
{
    let epitaph = kill.epitaph.as_str();
    let benefits_line: Option<&str> = if kill.benefits_awarded > 0 {
        Some(benefits_line)
    } else {
        None
    };
    let mut parts: Vec<String> = Vec::new();
    parts.push(owned(died_line));
    match summary {
        Some(s) => {
            if s.unicode_len() > 0 {
                parts.push(owned(s));
            }
        },
        None => {},
    }
    let mut e = owned("*");
    push_str(&mut e, epitaph);
    push_str(&mut e, "*");
    parts.push(e);
    match benefits_line {
        Some(b) => {
            parts.push(owned(b));
        },
        None => {},
    }
    let body = join_with_blank_lines(&parts);
    proof {
        let want = seq![died_line@] + (match summary {
            Some(s) => if s@.len() > 0 {
                seq![s@]
            } else {
                Seq::empty()
            },
            None => Seq::empty(),
        }) + seq!["*"@ + epitaph@ + "*"@] + (match benefits_line {
            Some(b) => seq![b@],
            None => Seq::empty(),
        });
        assert(parts@.map_values(|s: String| s@) =~= want);
    }
    DmDeathContent { body }
}

/// Parts separated by blank lines.
pub open spec fn join_paragraphs(parts: Seq<Seq<char>>) -> Seq<char>
    decreases parts.len(),
{
    if parts.len() == 0 {
        Seq::empty()
    } else if parts.len() == 1 {
        parts[0]
    } else {
        join_paragraphs(parts.drop_last()) + "\n\n"@ + parts.last()
    }
}

pub fn join_with_blank_lines(parts: &Vec<String>) -> (r: String)
    ensures
        r@ == join_paragraphs(parts@.map_values(|s: String| s@)),
{
    let ghost ps = parts@.map_values(|s: String| s@);
    let mut out = String::new();
    let mut i: usize = 0;
    while i < parts.len()
        invariant
            i <= parts@.len(),
            ps == parts@.map_values(|s: String| s@),
            out@ == join_paragraphs(ps.subrange(0, i as int)),
        decreases parts@.len() - i,
    {
        let ghost nxt = ps.subrange(0, i + 1);
        assert(nxt.drop_last() =~= ps.subrange(0, i as int));
        if i > 0 {
            push_str(&mut out, "\n\n");
        }
        push_str(&mut out, parts[i].as_str());
        i += 1;
        assert(out@ =~= join_paragraphs(nxt));
    }
    assert(ps.subrange(0, i as int) =~= ps);
    out
}

/// The death notice as a dark accented box.
pub fn build_dm_death_components(content: &DmDeathContent) -> (r: ComponentsV2Message)
    ensures
        r.flags == FLAG_IS_COMPONENTS_V2,
        r.components@.len() == 1,
        r.components@[0] matches Component::Container(c) && c.accent_color == Some(ACCENT_DEATH)
            && !c.spoiler && c.components@.len() == 1 && (c.components@[0] matches ContainerChild::Text(t)
            && t.content == content.body),
{
    let mut inner: Vec<ContainerChild> = Vec::new();
    inner.push(ContainerChild::Text(TextDisplay::new(content.body.clone())));
    let mut v: Vec<Component> = Vec::new();
    v.push(Component::Container(Container::with_accent(ACCENT_DEATH, inner)));
    ComponentsV2Message::channel(v)
}

/// The effective stats as the chud's stat lines show them.
pub open spec fn effective_triple(player: Player, registry: ItemRegistry) -> (u8, u8, u8) {
    (
        effective_stat_spec(player, registry, StatChoice::Strength),
        effective_stat_spec(player, registry, StatChoice::Smarts),
        effective_stat_spec(player, registry, StatChoice::Stealth),
    )
}

pub open spec fn dm_header_text(player: Player, registry: ItemRegistry) -> Seq<char> {
    player.chud_of().name@ + " -- *"@ + player.effective_stats_text(effective_triple(player, registry)) + "*"@
}

/// The chud's name and effective stats, heading a job report.
pub fn format_dm_header(player: &Player, registry: &ItemRegistry) -> (r: String)
    requires
        player.chud is Some,
    ensures
        r@ == dm_header_text(*player, *registry),
{
    let effective = effective_stats(player, registry);
    let mut s = player.chud_ref().name.clone();
    push_str(&mut s, " -- *");
    let stats = player.format_effective_stats(effective);
    push_str(&mut s, stats.as_str());
    push_str(&mut s, "*");
    s
}

pub open spec fn dm_quest_text(result: QuestResult) -> Seq<char> {
    "**"@ + result.quest_title@ + "** - _"@ + result.quest_giver@ + "_\n"@ + result.quest_description@
}

/// Title, giver and description of the quest, as a job report's briefing.
pub fn format_dm_quest(result: &QuestResult) -> (r: String)
    ensures
        r@ == dm_quest_text(*result),
{
    let mut s = owned("**");
    push_str(&mut s, result.quest_title.as_str());
    push_str(&mut s, "** - _");
    push_str(&mut s, result.quest_giver.as_str());
    push_str(&mut s, "_\n");
    push_str(&mut s, result.quest_description.as_str());
    s
}

pub open spec fn stat_emoji(k: StatChoice) -> Seq<char> {
    match k {
        StatChoice::Strength => "\u{1F4AA}"@,
        StatChoice::Smarts => "\u{1F9E0}"@,
        StatChoice::Stealth => "\u{1F977}"@,
    }
}

pub open spec fn stat_title(k: StatChoice) -> Seq<char> {
    match k {
        StatChoice::Strength => "Strength"@,
        StatChoice::Smarts => "Smarts"@,
        StatChoice::Stealth => "Stealth"@,
    }
}

/// The stat a trial used, starred when it was the best choice.
pub open spec fn trial_stat_text(trial: CompletedTrial) -> Seq<char> {
    if trial.chose_optimal {
        stat_emoji(trial.stat_used) + "\u{2726}"@ + stat_title(trial.stat_used) + "\u{2726}"@
    } else {
        stat_emoji(trial.stat_used) + stat_title(trial.stat_used)
    }
}

pub fn format_trial_stat(trial: &CompletedTrial) -> (r: String)
    ensures
        r@ == trial_stat_text(*trial),
{
    let (emoji, name) = match trial.stat_used {
        StatChoice::Strength => ("\u{1F4AA}", "Strength"),
        StatChoice::Smarts => ("\u{1F9E0}", "Smarts"),
        StatChoice::Stealth => ("\u{1F977}", "Stealth"),
    };
    let mut s = owned(emoji);
    if trial.chose_optimal {
        push_str(&mut s, "\u{2726}");
        push_str(&mut s, name);
        push_str(&mut s, "\u{2726}");
    } else {
        push_str(&mut s, name);
    }
    s
}

/// The two halves of a trial card: the situation, and how the roll went.
pub struct TrialCardText {
    pub situation: String,
    pub result: String,
}

pub open spec fn trial_situation_text(trial: CompletedTrial, index: nat) -> Seq<char> {
    "**Trial "@ + dec(index + 1) + "** - "@ + trial.situation@
}

pub open spec fn trial_result_text(player_name: Seq<char>, trial: CompletedTrial) -> Seq<char> {
    player_name + " used "@ + trial_stat_text(trial) + " and rolled "@ + dec(trial.player_roll as nat)
        + " against "@ + dec(trial.trial_roll as nat) + " -- "@ + (if trial.passed {
        "\u{2705}"@
    } else {
        "\u{274c}"@
    }) + "\n\n"@ + collapse_ws(trial.narrative@)
}

/// A trial card: which trial it was and its situation, then who used which stat, the roll
/// against the trial's, a pass or fail mark, and the narrative on one line.
pub fn format_dm_trial(player_name: &str, trial: &CompletedTrial, index: usize) -> (r: TrialCardText)
    requires
        index < usize::MAX,
    ensures
        r.situation@ == trial_situation_text(*trial, index as nat),
        r.result@ == trial_result_text(player_name@, *trial),
{
    let mut situation = owned("**Trial ");
    push_dec(&mut situation, (index + 1) as u64);
    push_str(&mut situation, "** - ");
    push_str(&mut situation, trial.situation.as_str());
    let mut result = owned(player_name);
    push_str(&mut result, " used ");
    let stat = format_trial_stat(trial);
    push_str(&mut result, stat.as_str());
    push_str(&mut result, " and rolled ");
    push_dec(&mut result, trial.player_roll as u64);
    push_str(&mut result, " against ");
    push_dec(&mut result, trial.trial_roll as u64);
    push_str(&mut result, " -- ");
    if trial.passed {
        push_str(&mut result, "\u{2705}");
    } else {
        push_str(&mut result, "\u{274c}");
    }
    push_str(&mut result, "\n\n");
    let narrative = collapse_whitespace_chars(trial.narrative.as_str());
    push_str(&mut result, narrative.as_str());
    TrialCardText { situation, result }
}

/// The outcome box text: a bold outcome word (only for a death), the summary, the footer
/// when there is one, and the hospital line when there is one, separated by blank lines.
pub open spec fn outcome_box_text(outcome: Option<Seq<char>>, summary: Seq<char>, footer: Seq<char>, hospital: Option<Seq<char>>) -> Seq<char> {
    join_paragraphs(
        (match outcome {
            Some(o) => seq!["**"@ + o + "**"@],
            None => Seq::empty(),
        }) + seq![summary] + (if footer.len() > 0 {
            seq![footer]
        } else {
            Seq::empty()
        }) + (match hospital {
            Some(h) => seq![h],
            None => Seq::empty(),
        }),
    )
}

pub fn format_completion_outcome_box(outcome: Option<&str>, summary: &str, footer: &str, hospital_msg: Option<&str>) -> (r: String)
    ensures
        r@ == outcome_box_text(
            match outcome {
                Some(o) => Some(o@),
                None => None,
            },
            summary@,
            footer@,
            match hospital_msg {
                Some(h) => Some(h@),
                None => None,
            },
        ),
{
    let mut parts: Vec<String> = Vec::new();
    match outcome {
        Some(o) => {
            let mut b = owned("**");
            push_str(&mut b, o);
            push_str(&mut b, "**");
            parts.push(b);
        },
        None => {},
    }
    parts.push(owned(summary));
    if footer.unicode_len() > 0 {
        parts.push(owned(footer));
    }
    match hospital_msg {
        Some(h) => {
            parts.push(owned(h));
        },
        None => {},
    }
    let r = join_with_blank_lines(&parts);
    proof {
        let want = (match outcome {
            Some(o) => seq!["**"@ + o@ + "**"@],
            None => Seq::empty(),
        }) + seq![summary@] + (if footer@.len() > 0 {
            seq![footer@]
        } else {
            Seq::empty()
        }) + (match hospital_msg {
            Some(h) => seq![h@],
            None => Seq::empty(),
        });
        assert(parts@.map_values(|s: String| s@) =~= want);
    }
    r
}

pub open spec fn item_award_text(item: Item, disposition: Option<ItemAwardDisposition>) -> Seq<char> {
    let slot = slot_label_text(item);
    let tail = "\nStats: "@ + item.stats.triplet() + "\n_"@ + item.description@ + "_"@;
    match disposition {
        Some(ItemAwardDisposition::Sold(gold)) => "**Stash full \u{2014} sold "@ + item.name@ + " for $"@
            + dec(gold as nat) + ":** ("@ + slot + ")"@ + tail,
        Some(ItemAwardDisposition::Equipped) => "**Stash full \u{2014} auto-equipped:** "@ + item.name@ + " ("@
            + slot + ")"@ + tail,
        _ => "**Item stashed:** "@ + item.name@ + " ("@ + slot + ")"@ + tail,
    }
}

/// The line announcing a quest item and what became of it.
pub fn format_item_award(item: &Item, item_award_disposition: Option<ItemAwardDisposition>) -> (r: String)
    ensures
        r@ == item_award_text(*item, item_award_disposition),
{
    let slot = format_item_slot_label(item);
    let mut s = match item_award_disposition {
        Some(ItemAwardDisposition::Sold(gold)) => {
            let mut s = owned("**Stash full \u{2014} sold ");
            push_str(&mut s, item.name.as_str());
            push_str(&mut s, " for $");
            push_dec(&mut s, gold as u64);
            push_str(&mut s, ":** (");
            s
        },
        Some(ItemAwardDisposition::Equipped) => {
            let mut s = owned("**Stash full \u{2014} auto-equipped:** ");
            push_str(&mut s, item.name.as_str());
            push_str(&mut s, " (");
            s
        },
        _ => {
            let mut s = owned("**Item stashed:** ");
            push_str(&mut s, item.name.as_str());
            push_str(&mut s, " (");
            s
        },
    };
    push_str(&mut s, slot.as_str());
    push_str(&mut s, ")");
    push_str(&mut s, "\nStats: ");
    let triplet = item.stats.format_triplet();
    push_str(&mut s, triplet.as_str());
    push_str(&mut s, "\n_");
    push_str(&mut s, item.description.as_str());
    push_str(&mut s, "_");
    s
}

/// A stat in the level-up line: `old -> **new**` when it rose, else its value.
pub open spec fn level_text(levelled: bool, val: u8) -> Seq<char> {
    if levelled {
        dec((val - 1) as nat) + " -> **"@ + dec(val as nat) + "**"@
    } else {
        dec(val as nat)
    }
}

fn push_level(s: &mut String, levelled: bool, val: u8)
    requires
        levelled ==> val >= 1,
    ensures
        final(s)@ == old(s)@ + level_text(levelled, val),
{
    if levelled {
        push_dec(s, (val - 1) as u64);
        push_str(s, " -> **");
        push_dec(s, val as u64);
        push_str(s, "**");
    } else {
        push_dec(s, val as u64);
    }
}

pub open spec fn level_up_text(player_name: Seq<char>, c: crate::game::domain::player::Chud, l: LevelUp) -> Seq<char> {
    player_name + " has improved! - Strength "@ + level_text(l.str_up, c.strength) + ", Smarts "@
        + level_text(l.smt_up, c.smarts) + ", Stealth "@ + level_text(l.sth_up, c.stealth)
        + ", Experience "@ + level_text(l.exp_up, c.experience)
}

fn format_level_up_line(player_name: &str, c: &crate::game::domain::player::Chud, level_up: &LevelUp) -> (r: String)
    requires
        level_up.str_up ==> c.strength >= 1,
        level_up.smt_up ==> c.smarts >= 1,
        level_up.sth_up ==> c.stealth >= 1,
        level_up.exp_up ==> c.experience >= 1,
    ensures
        r@ == level_up_text(player_name@, *c, *level_up),
{
    let mut out = owned(player_name);
    push_str(&mut out, " has improved! - Strength ");
    push_level(&mut out, level_up.str_up, c.strength);
    push_str(&mut out, ", Smarts ");
    push_level(&mut out, level_up.smt_up, c.smarts);
    push_str(&mut out, ", Stealth ");
    push_level(&mut out, level_up.sth_up, c.stealth);
    push_str(&mut out, ", Experience ");
    push_level(&mut out, level_up.exp_up, c.experience);
    out
}

/// Rewards footer of a job report: the caller's line about the money brought back (for a
/// passed job with a reward), then the level-up line when any stat rose.
pub open spec fn rewards_text(player_name: Seq<char>, c: crate::game::domain::player::Chud, l: LevelUp, passed: bool, reward: u32, money_line: Seq<char>) -> Seq<char> {
    let money = if passed && reward > 0 {
        money_line
    } else {
        Seq::empty()
    };
    if l.str_up || l.smt_up || l.sth_up || l.exp_up {
        money + (if money.len() > 0 {
            "\n"@
        } else {
            Seq::empty()
        }) + level_up_text(player_name, c, l)
    } else {
        money
    }
}

/// The rewards footer; a stat marked as risen is at least 1 (it rose from below).
pub fn format_completion_rewards(
    player_name: &str,
    player: &Player,
    level_up: &LevelUp,
    passed: bool,
    reward: u32,
    money_line: &str,
) -> (r: String)
    requires
        player.chud is Some,
        level_up.str_up ==> player.chud_of().strength >= 1,
        level_up.smt_up ==> player.chud_of().smarts >= 1,
        level_up.sth_up ==> player.chud_of().stealth >= 1,
        level_up.exp_up ==> player.chud_of().experience >= 1,
    ensures
        r@ == rewards_text(player_name@, player.chud_of(), *level_up, passed, reward, money_line@),
{
    let mut out = String::new();
    if passed && reward > 0 {
        push_str(&mut out, money_line);
    }
    if level_up.any() {
        if out.as_str().unicode_len() > 0 {
            push_str(&mut out, "\n");
        }
        let line = format_level_up_line(player_name, player.chud_ref(), level_up);
        push_str(&mut out, line.as_str());
    }
    out
}

/// Header, briefing, spoiled trial cards, and spoiled accented outcome for job DMs.
pub struct DmCompletionContent {
    pub header: String,
    pub briefing: String,
    pub trials: Vec<TrialCardText>,
    pub summary: String,
    pub item: Option<String>,
    pub passed: bool,
    pub died: bool,
}

pub open spec fn death_footer_text(kill: KillResult, benefits_line: Seq<char>) -> Seq<char> {
    "*"@ + kill.epitaph@ + "*"@ + (if kill.benefits_awarded > 0 {
        "\n"@ + benefits_line
    } else {
        Seq::empty()
    })
}

/// The epitaph in italics, then the caller's head-start line when money was left behind.
pub fn format_death_footer(kill: &KillResult, benefits_line: &str) -> (r: String)
    ensures
        r@ == death_footer_text(*kill, benefits_line@),
{
    let mut out = owned("*");
    push_str(&mut out, kill.epitaph.as_str());
    push_str(&mut out, "*");
    if kill.benefits_awarded > 0 {
        push_str(&mut out, "\n");
        push_str(&mut out, benefits_line);
    }
    out
}

/// The card texts of every trial, in order.
pub open spec fn cards_ok(cards: Seq<TrialCardText>, player_name: Seq<char>, trials: Seq<CompletedTrial>) -> bool {
    &&& cards.len() == trials.len()
    &&& forall|i: int| 0 <= i < cards.len() ==> #[trigger] cards[i].situation@ == trial_situation_text(trials[i], i as nat)
        && cards[i].result@ == trial_result_text(player_name, trials[i])
}

/// Everything a job report shows. With a death: the bold `DIED` outcome, the summary and the
/// death footer, no item. Otherwise: the summary, the rewards footer and the caller's
/// hospital line when the chud was hospitalized, and the item award when there is one. The
/// flavour lines (money, hospital, head start) come rendered by the caller.
pub fn build_dm_completion_content(
    player_name: &str,
    result: &QuestResult,
    player: &Player,
    registry: &ItemRegistry,
    level_up: &LevelUp,
    reward: u32,
    item_awarded: Option<&Item>,
    item_award_disposition: Option<ItemAwardDisposition>,
    hospitalized: bool,
    kill: Option<&KillResult>,
    money_line: &str,
    hospital_line: &str,
    benefits_line: &str,
) -> (r: DmCompletionContent)
    requires
        player.chud is Some,
        level_up.str_up ==> player.chud_of().strength >= 1,
        level_up.smt_up ==> player.chud_of().smarts >= 1,
        level_up.sth_up ==> player.chud_of().stealth >= 1,
        level_up.exp_up ==> player.chud_of().experience >= 1,
    ensures
        r.header@ == dm_header_text(*player, *registry),
        r.briefing@ == dm_quest_text(*result),
        cards_ok(r.trials@, player_name@, result.trials@),
        match kill {
            Some(k) => r.summary@ == outcome_box_text(Some("DIED"@), result.summary@, death_footer_text(*k, benefits_line@), None)
                && r.item is None && !r.passed && r.died,
            None => r.summary@ == outcome_box_text(
                None,
                result.summary@,
                rewards_text(player_name@, player.chud_of(), *level_up, result.passed, reward, money_line@),
                if hospitalized {
                    Some(hospital_line@)
                } else {
                    None
                },
            ) && r.passed == result.passed && !r.died && match item_awarded {
                Some(it) => r.item matches Some(t) && t@ == item_award_text(*it, item_award_disposition),
                None => r.item is None,
            },
        },
{
    let (summary, item, passed, died) = match kill {
        Some(k) => {
            let footer = format_death_footer(k, benefits_line);
            let summary = format_completion_outcome_box(Some("DIED"), result.summary.as_str(), footer.as_str(), None);
            (summary, None, false, true)
        },
        None => {
            let footer = format_completion_rewards(player_name, player, level_up, result.passed, reward, money_line);
            let hospital_msg: Option<&str> = if hospitalized {
                Some(hospital_line)
            } else {
                None
            };
            let summary = format_completion_outcome_box(None, result.summary.as_str(), footer.as_str(), hospital_msg);
            let item = match item_awarded {
                Some(it) => Some(format_item_award(it, item_award_disposition)),
                None => None,
            };
            (summary, item, result.passed, false)
        },
    };
    let mut trials: Vec<TrialCardText> = Vec::new();
    let mut i: usize = 0;
    while i < result.trials.len()
        invariant
            i <= result.trials@.len(),
            trials@.len() == i,
            forall|j: int| 0 <= j < i ==> #[trigger] trials@[j].situation@ == trial_situation_text(result.trials@[j], j as nat)
                && trials@[j].result@ == trial_result_text(player_name@, result.trials@[j]),
        decreases result.trials@.len() - i,
    {
        let card = format_dm_trial(player_name, &result.trials[i], i);
        trials.push(card);
        i += 1;
    }
    DmCompletionContent {
        header: format_dm_header(player, registry),
        briefing: format_dm_quest(result),
        trials,
        summary,
        item,
        passed,
        died,
    }
}

/// Is `c` a plain text display of `content`?
pub open spec fn is_text(c: Component, content: String) -> bool {
    c == Component::Text(TextDisplay { kind: TYPE_TEXT_DISPLAY, content })
}

pub open spec fn is_text_child(c: ContainerChild, content: String) -> bool {
    c == ContainerChild::Text(TextDisplay { kind: TYPE_TEXT_DISPLAY, content })
}

pub open spec fn is_section(c: ContainerChild) -> bool {
    c == ContainerChild::Separator(crate::discord::components_v2::Separator { kind: TYPE_SEPARATOR, divider: true, spacing: 2 })
}

/// A spoiled trial card: situation, divider, result.
pub open spec fn is_trial_card(c: Component, card: TrialCardText) -> bool {
    c matches Component::Container(k) && k.kind == TYPE_CONTAINER && k.accent_color is None && k.spoiler
        && k.components@.len() == 3 && is_text_child(k.components@[0], card.situation) && is_section(k.components@[1])
        && is_text_child(k.components@[2], card.result)
}

/// The spoiled outcome box, accented by the outcome: the summary, then a divider and the
/// item line when there is a non-empty one.
pub open spec fn is_outcome_box(c: Component, content: DmCompletionContent) -> bool {
    c matches Component::Container(k) && k.kind == TYPE_CONTAINER && k.accent_color == Some(
        outcome_accent_spec(content.passed, content.died),
    ) && k.spoiler && is_text_child(k.components@[0], content.summary) && match content.item {
        Some(t) => if t@.len() > 0 {
            k.components@.len() == 3 && is_section(k.components@[1]) && is_text_child(k.components@[2], t)
        } else {
            k.components@.len() == 1
        },
        None => k.components@.len() == 1,
    }
}

fn spoiled_trial_container(trial: &TrialCardText) -> (r: Component)
    ensures
        is_trial_card(r, *trial),
{
    let mut inner: Vec<ContainerChild> = Vec::new();
    inner.push(ContainerChild::Text(TextDisplay::new(trial.situation.clone())));
    inner.push(ContainerChild::Separator(Separator::section()));
    inner.push(ContainerChild::Text(TextDisplay::new(trial.result.clone())));
    Component::Container(Container::spoiled(inner))
}

fn spoiled_outcome_container(content: &DmCompletionContent) -> (r: Component)
    ensures
        is_outcome_box(r, *content),
{
    let mut inner: Vec<ContainerChild> = Vec::new();
    inner.push(ContainerChild::Text(TextDisplay::new(content.summary.clone())));
    match &content.item {
        Some(item) => {
            if item.as_str().unicode_len() > 0 {
                inner.push(ContainerChild::Separator(Separator::section()));
                inner.push(ContainerChild::Text(TextDisplay::new(item.clone())));
            }
        },
        None => {},
    }
    Component::Container(Container::with_accent_spoiled(outcome_accent(content.passed, content.died), inner))
}

/// Outcome block only — the same spoiled accented container as the full report.
pub fn build_dm_summary_components(content: &DmCompletionContent) -> (r: ComponentsV2Message)
    ensures
        r.flags == FLAG_IS_COMPONENTS_V2,
        r.components@.len() == 1,
        is_outcome_box(r.components@[0], *content),
{
    let mut v: Vec<Component> = Vec::new();
    v.push(spoiled_outcome_container(content));
    ComponentsV2Message::channel(v)
}

/// The components of a full job report, in order: header, briefing, one card per trial,
/// then the outcome box.
pub open spec fn report_components_ok(cs: Seq<Component>, content: DmCompletionContent) -> bool {
    let n = content.trials@.len() as int;
    &&& cs.len() == n + 3
    &&& is_text(cs[0], content.header)
    &&& is_text(cs[1], content.briefing)
    &&& forall|i: int| 0 <= i < n ==> #[trigger] is_trial_card(cs[i + 2], content.trials@[i])
    &&& is_outcome_box(cs[n + 2], content)
}

/// The full job report, packed into as few channel messages as the component budget allows.
pub fn build_dm_completion_messages(content: &DmCompletionContent) -> (r: Vec<ComponentsV2Message>)
    requires
        4 * content.trials@.len() + 12 <= usize::MAX,
    ensures
        report_components_ok(concat_all(message_components(r@)), *content),
        message_components(r@) == packed(concat_all(message_components(r@))),
{
    let mut components: Vec<Component> = Vec::new();
    components.push(Component::Text(TextDisplay::new(content.header.clone())));
    components.push(Component::Text(TextDisplay::new(content.briefing.clone())));
    let mut i: usize = 0;
    while i < content.trials.len()
        invariant
            i <= content.trials@.len(),
            components@.len() == i + 2,
            is_text(components@[0], content.header),
            is_text(components@[1], content.briefing),
            forall|j: int| 0 <= j < i ==> #[trigger] is_trial_card(components@[j + 2], content.trials@[j]),
        decreases content.trials@.len() - i,
    {
        let card = spoiled_trial_container(&content.trials[i]);
        components.push(card);
        i += 1;
    }
    components.push(spoiled_outcome_container(content));
    let ghost cs = components@;
    assert(report_components_ok(cs, *content));
    proof {
        assert forall|j: int| 0 <= j < cs.len() implies #[trigger] crate::discord::components_v2::component_size(cs[j]) <= 4 by {
            if 2 <= j < cs.len() - 1 {
                assert(is_trial_card(cs[(j - 2) + 2], content.trials@[j - 2]));
                let k = cs[j]->Container_0;
                crate::discord::components_v2::lemma_children_size_small(k.components@);
            } else if j == cs.len() - 1 {
                let k = cs[j]->Container_0;
                crate::discord::components_v2::lemma_children_size_small(k.components@);
            }
        }
        crate::discord::components_v2::lemma_components_size_at_most(cs, 4);
    }
    let r = ComponentsV2Message::channel_packed(components);
    proof {
        crate::discord::components_v2::lemma_packed_laws(cs);
    }
    r
}

#[derive(Debug, Clone, Copy)]
pub struct PlayerStatsBlockOptions {
    pub include_cash: bool,
}

pub open spec fn equipment_line(label: Seq<char>, item: Item) -> Seq<char> {
    label + ": **"@ + item.name@ + "** ("@ + slot_label_text(item) + ") ["@ + item.stats.triplet() + "]"@
}

/// A line per equipped slot whose item the registry knows: gear, weapon, misc 1, misc 2.
pub open spec fn equipment_lines(p: Player, items: Seq<Item>) -> Seq<Seq<char>> {
    let eq = p.chud_of().equipment;
    slot_line("Gear"@, eq.gear, items) + slot_line("Weapon"@, eq.weapon, items) + slot_line(
        "Misc 1"@,
        eq.misc[0],
        items,
    ) + slot_line("Misc 2"@, eq.misc[1], items)
}

/// The line of one slot, when it holds an item the registry knows.
pub open spec fn slot_line(label: Seq<char>, id: Option<u32>, items: Seq<Item>) -> Seq<Seq<char>> {
    match id {
        Some(i) => match lookup(items, i) {
            Some(item) => seq![equipment_line(label, item)],
            None => Seq::empty(),
        },
        None => Seq::empty(),
    }
}

fn push_equipment_line(
    lines: &mut Vec<String>,
    label: &str,
    id: Option<u32>,
    registry: &ItemRegistry,
)
    ensures
        final(lines)@.map_values(|s: String| s@) == old(lines)@.map_values(|s: String| s@) + slot_line(
            label@,
            id,
            registry.items@,
        ),
{
    let ghost before = lines@.map_values(|s: String| s@);
    match id {
        Some(i) => match registry.get(i) {
            Some(item) => {
                let mut s = owned(label);
                push_str(&mut s, ": **");
                push_str(&mut s, item.name.as_str());
                push_str(&mut s, "** (");
                let slot = format_item_slot_label(item);
                push_str(&mut s, slot.as_str());
                push_str(&mut s, ") [");
                let t = item.stats.format_triplet();
                push_str(&mut s, t.as_str());
                push_str(&mut s, "]");
                lines.push(s);
                assert(lines@.map_values(|s: String| s@) =~= before + seq![equipment_line(label@, *item)]);
            },
            None => {
                assert(lines@.map_values(|s: String| s@) =~= before + Seq::<Seq<char>>::empty());
            },
        },
        None => {
            assert(lines@.map_values(|s: String| s@) =~= before + Seq::<Seq<char>>::empty());
        },
    }
}

pub fn join_newlines(parts: &Vec<String>) -> (r: String)
    ensures
        r@ == join_lines(parts@.map_values(|s: String| s@)),
{
    let ghost ps = parts@.map_values(|s: String| s@);
    let mut out = String::new();
    let mut i: usize = 0;
    while i < parts.len()
        invariant
            i <= parts@.len(),
            ps == parts@.map_values(|s: String| s@),
            out@ == join_lines(ps.subrange(0, i as int)),
        decreases parts@.len() - i,
    {
        proof {
            assert(ps.subrange(0, i + 1) =~= ps.subrange(0, i as int).push(parts@[i as int]@));
        }
        push_line(&mut out, parts[i].as_str(), i == 0, Ghost(ps.subrange(0, i as int)));
        i += 1;
    }
    assert(ps.subrange(0, i as int) =~= ps);
    out
}

/// The chud's equipped items, one line each (label, name, slot, stats).
pub fn format_equipment_summary(player: &Player, registry: &ItemRegistry) -> (r: String)
    requires
        player.chud is Some,
    ensures
        r@ == join_lines(equipment_lines(*player, registry.items@)),
{
    let eq = player.chud_ref().equipment;
    let mut lines: Vec<String> = Vec::new();
    push_equipment_line(&mut lines, "Gear", eq.gear, registry);
    push_equipment_line(&mut lines, "Weapon", eq.weapon, registry);
    push_equipment_line(&mut lines, "Misc 1", eq.misc[0], registry);
    push_equipment_line(&mut lines, "Misc 2", eq.misc[1], registry);
    assert(lines@.map_values(|s: String| s@) =~= equipment_lines(*player, registry.items@));
    join_newlines(&lines)
}

pub open spec fn name_block_text(p: Player) -> Seq<char> {
    "**"@ + p.chud_of().name@ + "**\n-# "@ + p.chud_of().description@
}

fn format_chud_name_block(player: &Player) -> (r: String)
    requires
        player.chud is Some,
    ensures
        r@ == name_block_text(*player),
{
    let chud = player.chud_ref();
    let mut s = owned("**");
    push_str(&mut s, chud.name.as_str());
    push_str(&mut s, "**\n-# ");
    push_str(&mut s, chud.description.as_str());
    s
}

pub open spec fn stats_and_jobs_text(p: Player, registry: ItemRegistry) -> Seq<char> {
    "Stats: "@ + p.effective_stats_text(effective_triple(p, registry)) + "\n"@ + dec(
        p.chud_of().total_job_successes as nat,
    ) + " job completed, "@ + dec(p.chud_of().total_job_failures as nat) + " failed"@
}

pub(crate) fn format_chud_stats_and_jobs(player: &Player, registry: &ItemRegistry) -> (r: String)
    requires
        player.chud is Some,
    ensures
        r@ == stats_and_jobs_text(*player, *registry),
{
    let effective = effective_stats(player, registry);
    let mut s = player.format_effective_stats_line(effective);
    push_str(&mut s, "\n");
    let jobs = player.format_job_record();
    push_str(&mut s, jobs.as_str());
    s
}

/// Name, description, effective stats, and job record — the identity header of a chud.
pub fn format_chud_identity_block(player: &Player, registry: &ItemRegistry) -> (r: String)
    requires
        player.chud is Some,
    ensures
        r@ == name_block_text(*player) + "\n\n"@ + stats_and_jobs_text(*player, *registry),
{
    let mut s = format_chud_name_block(player);
    push_str(&mut s, "\n\n");
    let rest = format_chud_stats_and_jobs(player, registry);
    push_str(&mut s, rest.as_str());
    s
}

/// Name block, equipment (when any), stats and jobs, and optionally the player's cash.
pub open spec fn stats_block_text(player: Player, registry: ItemRegistry, include_cash: bool) -> Seq<char> {
    let equipment = join_lines(equipment_lines(player, registry.items@));
    name_block_text(player) + (if equipment.len() > 0 {
        "\n\n"@ + equipment
    } else {
        Seq::empty()
    }) + "\n\n"@ + stats_and_jobs_text(player, registry) + (if include_cash {
        "\n\nYou've got $"@ + dec(player.cash as nat) + " worth of loose change."@
    } else {
        Seq::empty()
    })
}

pub fn format_player_stats_block(player: &Player, registry: &ItemRegistry, options: PlayerStatsBlockOptions) -> (r: String)
    requires
        player.chud is Some,
    ensures
        r@ == stats_block_text(*player, *registry, options.include_cash),
{
    let equipment = format_equipment_summary(player, registry);
    let mut out = format_chud_name_block(player);
    if equipment.as_str().unicode_len() > 0 {
        push_str(&mut out, "\n\n");
        push_str(&mut out, equipment.as_str());
    }
    push_str(&mut out, "\n\n");
    let rest = format_chud_stats_and_jobs(player, registry);
    push_str(&mut out, rest.as_str());
    if options.include_cash {
        push_str(&mut out, "\n\nYou've got $");
        push_dec(&mut out, player.cash as u64);
        push_str(&mut out, " worth of loose change.");
    }
    out
}

/// `str::to_uppercase`: the full Unicode uppercase mapping, named here since its tables
/// take pages to state.
pub uninterp spec fn uppercase(s: Seq<char>) -> Seq<char>;

/// `str::to_uppercase` on the text; the result is `uppercase` of it.
#[verifier::external_body]
fn to_uppercase(s: &str) -> (r: String)
    ensures
        r@ == uppercase(s@),
{
    s.to_uppercase()
}

/// A gravestone heading: the name in capitals as a `#` heading (Text Display has no
/// centering, so the heading gives it prominence).
pub open spec fn gravestone_name_text(name: Seq<char>) -> Seq<char> {
    "# **"@ + uppercase(name) + "**"@
}

/// The graveyard as one ephemeral box: per grave, the chud's name as a heading and the
/// epitaph in capitals, graves separated by dividers.
pub fn build_graveyard_components(entries: &Vec<GraveyardEntry>) -> (r: ComponentsV2Message)
    ensures
        r.flags == 0x8040,
        r.components@.len() == 1,
        r.components@[0] matches Component::Container(c) && c.accent_color is None && !c.spoiler && ({
            let n = entries@.len() as int;
            &&& c.components@.len() == (if n == 0 {
                0
            } else {
                3 * n - 1
            })
            &&& forall|i: int| 0 <= i < n ==> {
                &&& #[trigger] c.components@[3 * i] matches ContainerChild::Text(t) && t.content@
                    == gravestone_name_text(entries@[i].chud.name@)
                &&& c.components@[3 * i + 1] matches ContainerChild::Text(t) && t.content@ == uppercase(
                    entries@[i].epitaph@,
                )
                &&& i + 1 < n ==> is_section(c.components@[3 * i + 2])
            }
        }),
{
    let mut inner: Vec<ContainerChild> = Vec::new();
    let mut i: usize = 0;
    while i < entries.len()
        invariant
            i <= entries@.len(),
            inner@.len() == (if i == 0 {
                0
            } else {
                3 * i - 1
            }),
            forall|j: int| 0 <= j < i ==> {
                &&& #[trigger] inner@[3 * j] matches ContainerChild::Text(t) && t.content@ == gravestone_name_text(
                    entries@[j].chud.name@,
                )
                &&& inner@[3 * j + 1] matches ContainerChild::Text(t) && t.content@ == uppercase(entries@[j].epitaph@)
                &&& j + 1 < i ==> is_section(inner@[3 * j + 2])
            },
        decreases entries@.len() - i,
    {
        let ghost before = inner@;
        if i > 0 {
            inner.push(ContainerChild::Separator(Separator::section()));
        }
        let ghost mid = inner@;
        let mut name = owned("# **");
        let upper = to_uppercase(entries[i].chud.name.as_str());
        push_str(&mut name, upper.as_str());
        push_str(&mut name, "**");
        inner.push(ContainerChild::Text(TextDisplay::new(name)));
        inner.push(ContainerChild::Text(TextDisplay::new(to_uppercase(entries[i].epitaph.as_str()))));
        proof {
            assert(forall|k: int| 0 <= k < before.len() ==> inner@[k] == before[k]);
            assert forall|j: int| 0 <= j < i + 1 implies {
                &&& #[trigger] inner@[3 * j] matches ContainerChild::Text(t) && t.content@ == gravestone_name_text(
                    entries@[j].chud.name@,
                )
                &&& inner@[3 * j + 1] matches ContainerChild::Text(t) && t.content@ == uppercase(entries@[j].epitaph@)
                &&& j + 1 < i + 1 ==> is_section(inner@[3 * j + 2])
            } by {
                if j < i {
                    assert(inner@[3 * j] == before[3 * j]);
                    assert(inner@[3 * j + 1] == before[3 * j + 1]);
                    if j + 1 < i {
                        assert(inner@[3 * j + 2] == before[3 * j + 2]);
                    } else {
                        assert(3 * j + 2 == mid.len() - 1);
                    }
                }
            }
        }
        i += 1;
    }
    let mut message = ComponentsV2Message::channel_box(inner, None);
    message.flags = crate::discord::components_v2::components_v2_flags();
    message
}

/// A scouting report DM: the scouted line, who else was seen there (the chud on the job,
/// then other scouts), how many days the job takes when it takes any, and the odds line.
/// The flavour lines (`scout_scouted`, `scout_days`, the odds line) come rendered by the
/// caller.
pub open spec fn scouting_report_text(
    scouted_line: Seq<char>,
    active_player_name: Option<Seq<char>>,
    scouting_player_names: Seq<Seq<char>>,
    quest_days: u32,
    days_line: Seq<char>,
    chance_line: Seq<char>,
) -> Seq<char> {
    scouted_line + (match active_player_name {
        Some(n) => "\nOh, and they also saw "@ + n + " on the job there."@,
        None => Seq::empty(),
    }) + (if scouting_player_names.len() > 0 {
        "\nThey also spotted "@ + join_names(scouting_player_names) + " checking it out."@
    } else {
        Seq::empty()
    }) + (if quest_days > 0 {
        "\n"@ + days_line
    } else {
        Seq::empty()
    }) + "\n"@ + chance_line
}

pub fn format_dm_scouting_report(
    scouted_line: &str,
    active_player_name: Option<&str>,
    scouting_player_names: &[&str],
    quest_days: u32,
    days_line: &str,
    chance_line: &str,
) -> (r: String)
    ensures
        r@ == scouting_report_text(
            scouted_line@,
            match active_player_name {
                Some(n) => Some(n@),
                None => None,
            },
            strs_view(scouting_player_names@),
            quest_days,
            days_line@,
            chance_line@,
        ),
{
    let mut out = owned(scouted_line);
    match active_player_name {
        Some(name) => {
            push_str(&mut out, "\nOh, and they also saw ");
            push_str(&mut out, name);
            push_str(&mut out, " on the job there.");
        },
        None => {},
    }
    if scouting_player_names.len() > 0 {
        let names = oxford_join(scouting_player_names);
        push_str(&mut out, "\nThey also spotted ");
        push_str(&mut out, names.as_str());
        push_str(&mut out, " checking it out.");
    }
    if quest_days > 0 {
        push_str(&mut out, "\n");
        push_str(&mut out, days_line);
    }
    push_str(&mut out, "\n");
    push_str(&mut out, chance_line);
    out
}

} // verus!
