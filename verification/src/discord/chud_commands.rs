//! What the chud's own slash commands answer: its sheet, its cash and its current job.

use vstd::prelude::*;

use crate::discord::components_v2::{Component, ComponentsV2Message, Separator, TextDisplay, TYPE_SEPARATOR, TYPE_TEXT_DISPLAY};
use crate::discord::formatting::{subtext_lines, subtext_text,
    equipment_lines, format_chud_stats_and_jobs, format_equipment_summary, stats_and_jobs_text,
};
use crate::discord::messages::{chud_msg_1, ChudMsg};
use crate::game::domain::board::Board;
use crate::game::domain::graveyard::Graveyard;
use crate::game::domain::episode_stats::join_lines;
use crate::game::domain::player::Player;
use crate::game::domain::stash::STASH_CAPACITY;
use crate::game::persistence::item_registry::ItemRegistry;
use crate::text::{dec, owned, push_dec, push_str};

verus! {

pub open spec fn no_chud_text() -> Seq<char> {
    "You don't have a chud."@
}

/// The stash line of the chud sheet: how full the stash is.
pub open spec fn stash_line_text(len: nat) -> Seq<char> {
    if len == 0 {
        "Stash: empty (0/"@ + dec(STASH_CAPACITY as nat) + ") - use `/gear` to manage loadout"@
    } else {
        "Stash: "@ + dec(len) + "/"@ + dec(STASH_CAPACITY as nat) + " items - use `/gear` to manage loadout"@
    }
}

pub fn format_stash_line(len: usize) -> (r: String)
    ensures
        r@ == stash_line_text(len as nat),
{
    if len == 0 {
        let mut s = owned("Stash: empty (0/");
        push_dec(&mut s, STASH_CAPACITY as u64);
        push_str(&mut s, ") - use `/gear` to manage loadout");
        s
    } else {
        let mut s = owned("Stash: ");
        push_dec(&mut s, len as u64);
        push_str(&mut s, "/");
        push_dec(&mut s, STASH_CAPACITY as u64);
        push_str(&mut s, " items - use `/gear` to manage loadout");
        s
    }
}

/// The chud sheet: name, description, the equipped items when there are any, the stash,
/// the effective stats, the job record and the cash.
pub open spec fn stats_sheet_text(p: Player, registry: ItemRegistry) -> Seq<char> {
    let chud = p.chud_of();
    let equipment = join_lines(equipment_lines(p, registry.items@));
    let head = "**"@ + chud.name@ + "**\n"@ + chud.description@ + "\n\n"@;
    let tail = stash_line_text(p.stash@.len()) + "\n"@ + stats_and_jobs_text(p, registry)
        + "\n\nYou've got $"@ + dec(p.cash as nat) + " worth of loose change."@;
    if equipment.len() == 0 {
        head + tail
    } else {
        head + equipment + "\n\n"@ + tail
    }
}

/// The answer to `/stats`: the chud sheet, or that the player has no chud.
pub fn stats_reply(player: &Option<Player>, registry: &ItemRegistry) -> (r: String)
    ensures
        r@ == match player {
            Some(p) => if p.chud is Some {
                stats_sheet_text(*p, *registry)
            } else {
                no_chud_text()
            },
            None => no_chud_text(),
        },
{
    let p = match player {
        Some(p) => p,
        None => {
            return owned("You don't have a chud.");
        },
    };
    if !p.has_chud() {
        return owned("You don't have a chud.");
    }
    let chud = p.chud_ref();
    let equipment = format_equipment_summary(p, registry);
    let stash_line = format_stash_line(p.stash.len());
    let stats = format_chud_stats_and_jobs(p, registry);
    let mut s = owned("**");
    push_str(&mut s, chud.name.as_str());
    push_str(&mut s, "**\n");
    push_str(&mut s, chud.description.as_str());
    push_str(&mut s, "\n\n");
    if equipment.as_str().unicode_len() != 0 {
        push_str(&mut s, equipment.as_str());
        push_str(&mut s, "\n\n");
    }
    push_str(&mut s, stash_line.as_str());
    push_str(&mut s, "\n");
    push_str(&mut s, stats.as_str());
    push_str(&mut s, "\n\nYou've got $");
    push_dec(&mut s, p.cash as u64);
    push_str(&mut s, " worth of loose change.");
    s
}

pub open spec fn broke_text() -> Seq<char> {
    "https://tenor.com/view/poor-no-money-gif-24226168"@
}

/// The answer to `/cash`: no player, a broke player, or how much they hold.
pub fn cash_reply(player: &Option<Player>) -> (r: String)
    ensures
        r@ == match player {
            None => no_chud_text(),
            Some(p) => if p.cash == 0 {
                broke_text()
            } else {
                "You've got "@ + dec(p.cash as nat) + " buckeroos"@
            },
        },
{
    match player {
        None => owned("You don't have a chud."),
        Some(p) => if p.cash == 0 {
            owned("https://tenor.com/view/poor-no-money-gif-24226168")
        } else {
            let mut s = owned("You've got ");
            push_dec(&mut s, p.cash as u64);
            push_str(&mut s, " buckeroos");
            s
        },
    }
}

/// The answer to `/job` for a chud named `name`: the posting of the job it runs on the
/// board, with a line on its trials when there is more than one; or that it has none.
pub open spec fn job_reply_text(name: Seq<char>, board: Board, user_id: u64) -> Seq<char> {
    match board.active_index(user_id) {
        None => "**"@ + name + "** is not on a job."@,
        Some(i) => {
            let q = board.quests@[i];
            let posting = "**"@ + q.generated.quest_title@ + "** - *"@ + q.generated.quest_giver@ + "*\n"@
                + q.generated.description@;
            if q.quest_data.trials@.len() > 1 {
                posting + "\n\n"@ + name + " is overcoming trials and tribulations."@
            } else {
                posting
            }
        },
    }
}

pub fn job_reply(player: &Option<Player>, board: &Board, user_id: u64) -> (r: String)
    ensures
        r@ == match player {
            Some(p) => if p.chud is Some {
                job_reply_text(p.chud_of().name@, *board, user_id)
            } else {
                no_chud_text()
            },
            None => no_chud_text(),
        },
{
    let p = match player {
        Some(p) => p,
        None => {
            return owned("You don't have a chud.");
        },
    };
    if !p.has_chud() {
        return owned("You don't have a chud.");
    }
    let name = p.chud_ref().name.as_str();
    match board.active_quest_for(user_id) {
        None => {
            let mut s = owned("**");
            push_str(&mut s, name);
            push_str(&mut s, "** is not on a job.");
            s
        },
        Some(q) => {
            let mut s = owned("**");
            push_str(&mut s, q.generated.quest_title.as_str());
            push_str(&mut s, "** - *");
            push_str(&mut s, q.generated.quest_giver.as_str());
            push_str(&mut s, "*\n");
            push_str(&mut s, q.generated.description.as_str());
            if q.quest_data.trials.len() > 1 {
                push_str(&mut s, "\n\n");
                push_str(&mut s, name);
                push_str(&mut s, " is overcoming trials and tribulations.");
            }
            s
        },
    }
}

/// The description shown by `/inspect`: its rendered opening line, then the equipped items
/// when there are any.
pub fn format_inspect_description(player: &Player, registry: &ItemRegistry, intro: String) -> (r: String)
    requires
        player.chud is Some,
    ensures
        r@ == ({
            let equipment = join_lines(equipment_lines(*player, registry.items@));
            if equipment.len() == 0 {
                intro@
            } else {
                intro@ + "\n\n"@ + equipment
            }
        }),
{
    let mut msg = intro;
    let equipment = format_equipment_summary(player, registry);
    if equipment.as_str().unicode_len() != 0 {
        push_str(&mut msg, "\n\n");
        push_str(&mut msg, equipment.as_str());
    }
    msg
}


/// A chud's entry in `/all_chuds`: its name, its player's nickname, and its description as
/// subtext.
pub open spec fn chud_entry_text(chud_name: Seq<char>, nickname: Seq<char>, description: Seq<char>) -> Seq<char> {
    "**"@ + chud_name + "**, "@ + nickname + "'s chud\n"@ + subtext_text(description)
}

pub fn format_chud_entry(chud_name: &str, nickname: &str, description: &str) -> (r: String)
    ensures
        r@ == chud_entry_text(chud_name@, nickname@, description@),
{
    let mut s = owned("**");
    push_str(&mut s, chud_name);
    push_str(&mut s, "**, ");
    push_str(&mut s, nickname);
    push_str(&mut s, "'s chud\n");
    let d = subtext_lines(description);
    push_str(&mut s, d.as_str());
    s
}

/// The most components one `/all_chuds` message holds.
pub const ROSTER_MAX_COMPONENTS: usize = 40;

/// Entries a roster message holds: each entry but the first comes after a divider, so
/// twenty fit in the component budget.
pub const ROSTER_ENTRIES_PER_MESSAGE: usize = 20;

/// The components of one roster message: its entries as text, with a divider between each
/// two.
pub open spec fn roster_components(entries: Seq<String>) -> Seq<Component> {
    Seq::new(
        if entries.len() == 0 {
            0
        } else {
            (2 * entries.len() - 1) as nat
        },
        |k: int|
            if k % 2 == 0 {
                Component::Text(TextDisplay { kind: TYPE_TEXT_DISPLAY, content: entries[k / 2] })
            } else {
                Component::Separator(Separator { kind: TYPE_SEPARATOR, divider: true, spacing: 2 })
            },
    )
}

/// The `/all_chuds` messages for the entries in order: a new message whenever the next
/// entry and its divider would pass the component budget, i.e. twenty entries to each.
pub fn pack_roster(entries: &Vec<String>) -> (r: Vec<ComponentsV2Message>)
    ensures
        r@.len() == (entries@.len() + 19) / 20,
        forall|m: int| 0 <= m < r@.len() ==> {
            &&& (#[trigger] r@[m]).flags == 0x8040
            &&& r@[m].components@ == roster_components(entries@.subrange(
                20 * m,
                if 20 * m + 20 < entries@.len() {
                    20 * m + 20
                } else {
                    entries@.len() as int
                },
            ))
        },
{
    let n = entries.len();
    let mut messages: Vec<ComponentsV2Message> = Vec::new();
    let mut components: Vec<Component> = Vec::new();
    let ghost mut base: int = 0;
    let mut i: usize = 0;
    while i < n
        invariant
            n == entries@.len(),
            0 <= base <= i <= n,
            i - base <= 20,
            base % 20 == 0,
            i > 0 ==> i - base >= 1,
            messages@.len() == base / 20,
            components@ == roster_components(entries@.subrange(base, i as int)),
            forall|m: int| 0 <= m < messages@.len() ==> {
                &&& (#[trigger] messages@[m]).flags == 0x8040
                &&& messages@[m].components@ == roster_components(entries@.subrange(20 * m, 20 * m + 20))
            },
        decreases n - i,
    {
        if i > 0 {
            if components.len() + 2 > ROSTER_MAX_COMPONENTS {
                assert(i - base == 20);
                let ghost before = messages@;
                messages.push(ComponentsV2Message::ephemeral(components));
                components = Vec::new();
                proof {
                    assert forall|m: int| 0 <= m < messages@.len() implies {
                        &&& (#[trigger] messages@[m]).flags == 0x8040
                        &&& messages@[m].components@ == roster_components(entries@.subrange(20 * m, 20 * m + 20))
                    } by {
                        if m < before.len() {
                            assert(messages@[m] == before[m]);
                        } else {
                            assert(m == base / 20);
                            assert(20 * m == base);
                        }
                    }
                    base = i as int;
                }
                assert(components@ =~= roster_components(entries@.subrange(base, i as int)));
            }
            if components.len() > 0 {
                components.push(Component::Separator(Separator::section()));
            }
        }
        // The budget never forces a break before an entry itself: the check before the
        // divider already started a new message.
        assert(components@.len() + 1 <= ROSTER_MAX_COMPONENTS);
        let ghost old_rc = roster_components(entries@.subrange(base, i as int));
        let ghost prev = components@;
        assert(prev.len() == (if i > base { 2 * (i - base) } else { 0 }));
        assert(forall|k: int| 0 <= k < old_rc.len() ==> prev[k] == old_rc[k]);
        assert(i > base ==> prev[2 * (i - base) - 1] == Component::Separator(
            Separator { kind: TYPE_SEPARATOR, divider: true, spacing: 2 },
        ));
        components.push(Component::Text(TextDisplay::new(entries[i].clone())));
        proof {
            let sub = entries@.subrange(base, i + 1);
            let rc = roster_components(sub);
            assert(rc.len() == components@.len());
            assert forall|k: int| 0 <= k < rc.len() implies components@[k] == rc[k] by {
                if k < old_rc.len() {
                    assert(components@[k] == old_rc[k]);
                    if k % 2 == 0 {
                        assert(sub[k / 2] == entries@.subrange(base, i as int)[k / 2]);
                    }
                } else if k < prev.len() {
                } else {
                    assert(k == 2 * (i - base));
                    assert(k / 2 == i - base);
                    assert(sub[k / 2] == entries@[i as int]);
                }
            }
            assert(components@ =~= rc);
        }
        i += 1;
    }
    if components.len() > 0 {
        let ghost before = messages@;
        messages.push(ComponentsV2Message::ephemeral(components));
        proof {
            assert(n - base >= 1);
            assert(messages@[before.len() as int].components@ == roster_components(entries@.subrange(base, n as int)));
        }
    }
    proof {
        assert(messages@.len() == (n + 19) / 20) by {
            if n == 0 {
            } else {
                assert(base < n);
                assert((n + 19) / 20 == base / 20 + 1);
            }
        }
        assert forall|m: int| 0 <= m < messages@.len() implies {
            &&& (#[trigger] messages@[m]).flags == 0x8040
            &&& messages@[m].components@ == roster_components(entries@.subrange(
                20 * m,
                if 20 * m + 20 < entries@.len() {
                    20 * m + 20
                } else {
                    entries@.len() as int
                },
            ))
        } by {
            if 20 * m + 20 < n {
            } else if m < base / 20 {
                assert(20 * m + 20 <= base);
            } else {
                assert(20 * m == base);
            }
        }
    }
    messages
}


/// What `/graveyard` answers.
pub enum GraveyardReply {
    /// The player has no chud ("you need a chud").
    NoChud,
    /// Nobody is buried yet: the catalog line to show.
    Empty(ChudMsg),
    /// The graves are shown (as `build_graveyard_components` draws them); while the game is
    /// being played, the visit is also logged with this line.
    Show { visit_line: Option<ChudMsg> },
}

pub fn graveyard_reply(player: &Option<Player>, graveyard: &Graveyard, playing: bool) -> (r: GraveyardReply)
    ensures
        match player {
            Some(p) if p.chud is Some => if graveyard.entries@.len() == 0 {
                r matches GraveyardReply::Empty(m) && m.key == "graveyard_empty" && m.args_view().len() == 0
            } else if playing {
                r matches GraveyardReply::Show { visit_line: Some(m) } && m.key == "graveyard_visit"
                    && m.args_view() == seq![p.chud.unwrap().name@]
            } else {
                r matches GraveyardReply::Show { visit_line: None }
            },
            _ => r is NoChud,
        },
{
    let p = match player {
        Some(p) => p,
        None => {
            return GraveyardReply::NoChud;
        },
    };
    if !p.has_chud() {
        return GraveyardReply::NoChud;
    }
    if graveyard.entries.len() == 0 {
        let m = ChudMsg { key: "graveyard_empty", args: Vec::new() };
        assert(m.args_view() =~= Seq::<Seq<char>>::empty());
        return GraveyardReply::Empty(m);
    }
    if playing {
        GraveyardReply::Show { visit_line: Some(chud_msg_1("graveyard_visit", p.chud_ref().name.clone())) }
    } else {
        GraveyardReply::Show { visit_line: None }
    }
}

/// The `/graveyard` refusal for a player without a chud.
pub fn need_a_chud_text() -> (r: &'static str)
    ensures
        r@ == "you need a chud"@,
{
    proof {
        reveal_strlit("you need a chud");
    }
    "you need a chud"
}

} // verus!
