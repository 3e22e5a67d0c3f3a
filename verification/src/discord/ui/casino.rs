use vstd::prelude::*;

use crate::discord::components_v2::{
    button_desc, components_v2_flags, describe_all, lemma_describe_buttons, ActionRow,
    ActionRowChild, Button, ButtonDesc, Component, ComponentDesc, ComponentsV2Message,
    TextDisplay, STYLE_PRIMARY,
};
use crate::discord::messages::{chud_msg_2, ChudMsg};
use crate::discord::ui::{push_status_notice, status_notice_descs};
use crate::game::domain::item::{parse_u32, u32_text_value};
use crate::game::domain::player::Player;
use crate::game::slots::{
    cash_after_spin, first_five_from, spin_for_player, spin_refused, SlotsError, SlotsSpin,
};
use crate::text::{
    dec, dec_int, dec_string, first_word, first_word_of, join_with, owned, push_char, push_dec,
    push_int, push_joined, push_str, strip_prefix, strip_prefix_spec,
};

verus! {

pub const PLAYER_SPIN_PREFIX: &'static str = "slots:spin";

pub const ADMIN_SPIN_PREFIX: &'static str = "admin_slots:spin";

pub const MAX_PAY_IN: u32 = 1000;

/// A stake is between $1 and $1000.
pub fn validate_pay_in(pay_in: u32) -> (r: Result<(), &'static str>)
    ensures
        pay_in < 1 ==> (r matches Err(m) && m@ == "pay-in must be at least $1"@),
        pay_in > MAX_PAY_IN ==> (r matches Err(m) && m@ == "pay-in must be at most $1000"@),
        1 <= pay_in <= MAX_PAY_IN ==> r == Ok::<(), &'static str>(()),
{
    if pay_in < 1 {
        Err("pay-in must be at least $1")
    } else if pay_in > MAX_PAY_IN {
        Err("pay-in must be at most $1000")
    } else {
        Ok(())
    }
}

/// One pay-table entry: the symbol and its payout.
pub open spec fn symbol_value_text(e: (char, i64)) -> Seq<char> {
    seq![e.0] + " $"@ + dec_int(e.1 as int)
}

/// The five-of-a-kind payouts as a subtext line, two spaces apart.
pub open spec fn symbol_values_text(row: Seq<(char, i64)>) -> Seq<char> {
    "-# "@ + join_with(row.map_values(|e: (char, i64)| symbol_value_text(e)), "  "@)
}

/// `symbol_values` is the pay table's five-of-a-kind row for the stake
/// (`pay_table_5x_row`).
pub fn format_symbol_values(symbol_values: &Vec<(char, i64)>) -> (r: String)
    ensures
        r@ == symbol_values_text(symbol_values@),
{
    let ghost parts = symbol_values@.map_values(|e: (char, i64)| symbol_value_text(e));
    let mut joined = String::new();
    let mut i: usize = 0;
    while i < symbol_values.len()
        invariant
            i <= symbol_values@.len(),
            parts == symbol_values@.map_values(|e: (char, i64)| symbol_value_text(e)),
            joined@ == join_with(parts.subrange(0, i as int), "  "@),
        decreases symbol_values@.len() - i,
    {
        let (symbol, value) = symbol_values[i];
        let mut part = String::new();
        push_char(&mut part, symbol);
        push_str(&mut part, " $");
        push_int(&mut part, value);
        assert(part@ =~= parts[i as int]);
        push_joined(&mut joined, "  ", part.as_str(), i == 0, Ghost(parts.subrange(0, i as int)));
        assert(parts.subrange(0, i as int).push(part@) =~= parts.subrange(0, i + 1));
        i += 1;
    }
    assert(parts.subrange(0, symbol_values@.len() as int) =~= parts);
    let mut s = owned("-# ");
    push_str(&mut s, joined.as_str());
    s
}

/// The reels between bars, or question marks before the first pull.
pub open spec fn reels_text(reels: Option<Seq<char>>) -> Seq<char> {
    match reels {
        None => "| ? ? ? ? ? |"@,
        Some(symbols) => "| "@ + join_with(symbols.map_values(|c: char| seq![c]), " "@) + " |"@,
    }
}

pub fn format_reels(reels: Option<&[char]>) -> (r: String)
    ensures
        r@ == reels_text(
            match reels {
                Some(s) => Some(s@),
                None => None,
            },
        ),
{
    match reels {
        None => owned("| ? ? ? ? ? |"),
        Some(symbols) => {
            let ghost parts = symbols@.map_values(|c: char| seq![c]);
            let mut inner = String::new();
            let mut i: usize = 0;
            while i < symbols.len()
                invariant
                    i <= symbols@.len(),
                    parts == symbols@.map_values(|c: char| seq![c]),
                    inner@ == join_with(parts.subrange(0, i as int), " "@),
                decreases symbols@.len() - i,
            {
                let mut part = String::new();
                push_char(&mut part, symbols[i]);
                assert(part@ =~= parts[i as int]);
                push_joined(&mut inner, " ", part.as_str(), i == 0, Ghost(parts.subrange(0, i as int)));
                assert(parts.subrange(0, i as int).push(part@) =~= parts.subrange(0, i + 1));
                i += 1;
            }
            assert(parts.subrange(0, symbols@.len() as int) =~= parts);
            let mut s = owned("| ");
            push_str(&mut s, inner.as_str());
            push_str(&mut s, " |");
            s
        },
    }
}

/// One winning line: count, symbol and payout.
pub open spec fn win_line_text(w: (char, usize, i64)) -> Seq<char> {
    dec(w.1 as nat) + "x "@ + seq![w.0] + " \u{2192} $"@ + dec_int(w.2 as int)
}

/// The result of a pull: the net gain or loss (a loss shows the stake), the cash on hand
/// when given, then one line per win.
pub open spec fn result_text(spin: SlotsSpin, cash: Option<u32>) -> Seq<char> {
    let net = spin.payout - spin.pay_in;
    let head = if net > 0 {
        "**+$"@ + dec(net as nat) + "** (won $"@ + dec_int(spin.payout as int) + ")"@
    } else if net < 0 {
        "**-$"@ + dec(spin.pay_in as nat) + "** (no win)"@
    } else {
        "**break even**"@
    };
    let headline = match cash {
        Some(c) => head + " \u{b7} $"@ + dec(c as nat) + " on hand"@,
        None => head,
    };
    if spin.wins@.len() == 0 {
        headline
    } else {
        headline + "\n"@ + join_with(spin.wins@.map_values(|w: (char, usize, i64)| win_line_text(w)), "\n"@)
    }
}

pub fn format_result(spin: &SlotsSpin, cash: Option<u32>) -> (r: String)
    ensures
        r@ == result_text(*spin, cash),
{
    let net: i128 = spin.payout as i128 - spin.pay_in as i128;
    let mut headline = if net > 0 {
        let mut h = owned("**+$");
        push_dec(&mut h, net as u64);
        push_str(&mut h, "** (won $");
        push_int(&mut h, spin.payout);
        push_str(&mut h, ")");
        h
    } else if net < 0 {
        let mut h = owned("**-$");
        push_dec(&mut h, spin.pay_in as u64);
        push_str(&mut h, "** (no win)");
        h
    } else {
        owned("**break even**")
    };
    match cash {
        Some(c) => {
            push_str(&mut headline, " \u{b7} $");
            push_dec(&mut headline, c as u64);
            push_str(&mut headline, " on hand");
        },
        None => {},
    }
    if spin.wins.len() == 0 {
        return headline;
    }
    let ghost parts = spin.wins@.map_values(|w: (char, usize, i64)| win_line_text(w));
    let mut lines = String::new();
    let mut i: usize = 0;
    while i < spin.wins.len()
        invariant
            i <= spin.wins@.len(),
            parts == spin.wins@.map_values(|w: (char, usize, i64)| win_line_text(w)),
            lines@ == join_with(parts.subrange(0, i as int), "\n"@),
        decreases spin.wins@.len() - i,
    {
        let (symbol, count, payout) = spin.wins[i];
        let mut line = dec_string(count as u64);
        push_str(&mut line, "x ");
        push_char(&mut line, symbol);
        push_str(&mut line, " \u{2192} $");
        push_int(&mut line, payout);
        assert(line@ =~= parts[i as int]);
        push_joined(&mut lines, "\n", line.as_str(), i == 0, Ghost(parts.subrange(0, i as int)));
        assert(parts.subrange(0, i as int).push(line@) =~= parts.subrange(0, i + 1));
        i += 1;
    }
    assert(parts.subrange(0, spin.wins@.len() as int) =~= parts);
    push_str(&mut headline, "\n");
    push_str(&mut headline, lines.as_str());
    headline
}

pub open spec fn spin_button_desc(prefix: Seq<char>, pay_in: u32) -> ButtonDesc {
    ButtonDesc { custom_id: prefix + ":"@ + dec(pay_in as nat), label: "Spin $"@ + dec(pay_in as nat), style: STYLE_PRIMARY }
}

/// The slots screen: title, pay table row, reels, the last result (or the cash on hand),
/// the spin button for this stake, then the status notice.
pub open spec fn slots_screen(
    pay_in: u32,
    cash: Option<u32>,
    last_spin: Option<SlotsSpin>,
    notice: Option<Seq<char>>,
    prefix: Seq<char>,
    symbol_values: Seq<(char, i64)>,
) -> Seq<ComponentDesc> {
    seq![
        ComponentDesc::Text("**Slots**"@),
        ComponentDesc::Text(symbol_values_text(symbol_values)),
        ComponentDesc::Text(reels_text(
            match last_spin {
                Some(s) => Some(s.reels@),
                None => None,
            },
        )),
    ] + match last_spin {
        Some(s) => seq![ComponentDesc::Text(result_text(s, cash))],
        None => match cash {
            Some(c) => seq![ComponentDesc::Text("You have $"@ + dec(c as nat) + " on hand"@)],
            None => Seq::empty(),
        },
    } + seq![ComponentDesc::Buttons(seq![spin_button_desc(prefix, pay_in)])] + status_notice_descs(notice)
}

pub open spec fn opt_text(n: Option<&str>) -> Option<Seq<char>> {
    match n {
        Some(t) => Some(t@),
        None => None,
    }
}

/// The slots screen for a stake; `symbol_values` is the pay table's five-of-a-kind row for
/// that stake.
pub fn build_slots_message(
    pay_in: u32,
    cash: Option<u32>,
    last_spin: Option<&SlotsSpin>,
    notice: Option<&str>,
    spin_button_prefix: &str,
    symbol_values: &Vec<(char, i64)>,
) -> (r: ComponentsV2Message)
    ensures
        r.flags == 0x8040,
        describe_all(r.components@) == slots_screen(
            pay_in,
            cash,
            match last_spin {
                Some(s) => Some(*s),
                None => None,
            },
            opt_text(notice),
            spin_button_prefix@,
            symbol_values@,
        ),
{
    let mut components: Vec<Component> = Vec::new();
    components.push(Component::Text(TextDisplay::new(owned("**Slots**"))));
    components.push(Component::Text(TextDisplay::new(format_symbol_values(symbol_values))));
    let reels: Option<&[char]> = match last_spin {
        Some(s) => Some(s.reels.as_slice()),
        None => None,
    };
    components.push(Component::Text(TextDisplay::new(format_reels(reels))));
    match last_spin {
        Some(spin) => {
            components.push(Component::Text(TextDisplay::new(format_result(spin, cash))));
        },
        None => match cash {
            Some(c) => {
                let mut line = owned("You have $");
                push_dec(&mut line, c as u64);
                push_str(&mut line, " on hand");
                components.push(Component::Text(TextDisplay::new(line)));
            },
            None => {},
        },
    }
    let mut id = owned(spin_button_prefix);
    push_str(&mut id, ":");
    push_dec(&mut id, pay_in as u64);
    let mut label = owned("Spin $");
    push_dec(&mut label, pay_in as u64);
    let button = Button::primary(id, label);
    let row = ActionRow::one_button(button);
    proof {
        let bs = seq![button];
        assert(row.components@ =~= bs.map_values(|b: Button| ActionRowChild::Button(b)));
        lemma_describe_buttons(bs, row);
        assert(bs.map_values(|b: Button| button_desc(b)) =~= seq![spin_button_desc(spin_button_prefix@, pay_in)]);
    }
    components.push(Component::ActionRow(row));
    push_status_notice(&mut components, notice);
    let ghost spin_view = match last_spin {
        Some(s) => Some(*s),
        None => None,
    };
    assert(describe_all(components@) =~= slots_screen(
        pay_in,
        cash,
        spin_view,
        opt_text(notice),
        spin_button_prefix@,
        symbol_values@,
    ));
    ComponentsV2Message { flags: components_v2_flags(), components }
}

/// A player's slots screen before the first pull.
pub fn build_player_slots_open_message(player: &Player, pay_in: u32, symbol_values: &Vec<(char, i64)>) -> (r: ComponentsV2Message)
    ensures
        r.flags == 0x8040,
        describe_all(r.components@) == slots_screen(
            pay_in,
            Some(player.cash),
            None,
            None,
            PLAYER_SPIN_PREFIX@,
            symbol_values@,
        ),
{
    build_slots_message(pay_in, Some(player.cash), None, None, PLAYER_SPIN_PREFIX, symbol_values)
}

/// A spin button's id: the admin or player prefix, a colon and the stake.
pub open spec fn spin_custom_id(s: Seq<char>) -> Option<(bool, u32)> {
    match strip_prefix_spec(s, ADMIN_SPIN_PREFIX@) {
        Some(rest) => match strip_prefix_spec(rest, ":"@) {
            Some(n) => match u32_text_value(n) {
                Some(v) => Some((true, v as u32)),
                None => None,
            },
            None => None,
        },
        None => match strip_prefix_spec(s, PLAYER_SPIN_PREFIX@) {
            Some(rest) => match strip_prefix_spec(rest, ":"@) {
                Some(n) => match u32_text_value(n) {
                    Some(v) => Some((false, v as u32)),
                    None => None,
                },
                None => None,
            },
            None => None,
        },
    }
}

fn stake_after_colon(rest: &str) -> (r: Option<u32>)
    ensures
        r == (match strip_prefix_spec(rest@, ":"@) {
            Some(n) => match u32_text_value(n) {
                Some(v) => Some(v as u32),
                None => None::<u32>,
            },
            None => None,
        }),
{
    match strip_prefix(rest, ":") {
        Some(n) => parse_u32(n.as_str()),
        None => None,
    }
}

pub fn parse_spin_custom_id(custom_id: &str) -> (r: Option<(bool, u32)>)
    ensures
        r == spin_custom_id(custom_id@),
{
    match strip_prefix(custom_id, ADMIN_SPIN_PREFIX) {
        Some(rest) => {
            return match stake_after_colon(rest.as_str()) {
                Some(v) => Some((true, v)),
                None => None,
            };
        },
        None => {},
    }
    match strip_prefix(custom_id, PLAYER_SPIN_PREFIX) {
        Some(rest) => match stake_after_colon(rest.as_str()) {
            Some(v) => Some((false, v)),
            None => None,
        },
        None => None,
    }
}

pub fn insufficient_funds_notice() -> (r: &'static str)
    ensures
        r@ == "You don't have enough cash."@,
{
    "You don't have enough cash."
}

pub open spec fn stake_ok(pay_in: u32) -> bool {
    1 <= pay_in <= MAX_PAY_IN
}

pub open spec fn invalid_stake_text(pay_in: u32) -> Seq<char> {
    if pay_in < 1 {
        "pay-in must be at least $1"@
    } else {
        "pay-in must be at most $1000"@
    }
}

/// An admin's test pull: an invalid stake shows why (with the stake raised to $1); else
/// the pull `spin` of the machine for this stake is shown, with no cash involved.
/// `symbol_values` is the five-of-a-kind row for the shown stake.
pub fn admin_spin_response(pay_in: u32, spin: Option<SlotsSpin>, symbol_values: &Vec<(char, i64)>) -> (r: ComponentsV2Message)
    requires
        stake_ok(pay_in) ==> spin is Some,
    ensures
        r.flags == 0x8040,
        describe_all(r.components@) == if stake_ok(pay_in) {
            slots_screen(pay_in, None, spin, None, ADMIN_SPIN_PREFIX@, symbol_values@)
        } else {
            slots_screen(
                if pay_in < 1 { 1 } else { pay_in },
                None,
                None,
                Some(invalid_stake_text(pay_in)),
                ADMIN_SPIN_PREFIX@,
                symbol_values@,
            )
        },
{
    match validate_pay_in(pay_in) {
        Err(msg) => {
            let shown = if pay_in < 1 {
                1
            } else {
                pay_in
            };
            build_slots_message(shown, None, None, Some(msg), ADMIN_SPIN_PREFIX, symbol_values)
        },
        Ok(()) => {
            let s = spin.unwrap();
            build_slots_message(pay_in, None, Some(&s), None, ADMIN_SPIN_PREFIX, symbol_values)
        },
    }
}

/// The screen after a player's pull, and the activity-log line of a mini jackpot.
pub struct PlayerSpinResponse {
    pub message: ComponentsV2Message,
    /// The pull that was settled, if any.
    pub settled: Option<SlotsSpin>,
    pub activity: Option<ChudMsg>,
}

/// A player's pull: an invalid stake shows why (with the stake raised to $1); a stake the
/// cash does not cover is refused; else the pull `spin` of the machine is settled with
/// `spin_for_player` and shown with the cash after it. Five of a kind with a positive
/// payout yields the `chud_jackpot_slots` line with the chud's first name and the payout.
/// `symbol_values` is the five-of-a-kind row for the shown stake.
pub fn player_spin_response(
    player: &mut Player,
    pay_in: u32,
    spin: Option<SlotsSpin>,
    symbol_values: &Vec<(char, i64)>,
) -> (r: PlayerSpinResponse)
    requires
        old(player).chud is Some,
        stake_ok(pay_in) && !spin_refused(*old(player), pay_in) ==> (spin matches Some(s) && s.pay_in == pay_in),
    ensures
        r.message.flags == 0x8040,
        if !stake_ok(pay_in) {
            &&& *final(player) == *old(player)
            &&& r.settled is None && r.activity is None
            &&& describe_all(r.message.components@) == slots_screen(
                if pay_in < 1 { 1 } else { pay_in },
                Some(old(player).cash),
                None,
                Some(invalid_stake_text(pay_in)),
                PLAYER_SPIN_PREFIX@,
                symbol_values@,
            )
        } else if spin_refused(*old(player), pay_in) {
            &&& *final(player) == *old(player)
            &&& r.settled is None && r.activity is None
            &&& describe_all(r.message.components@) == slots_screen(
                pay_in,
                Some(old(player).cash),
                None,
                Some("You don't have enough cash."@),
                PLAYER_SPIN_PREFIX@,
                symbol_values@,
            )
        } else {
            let s = spin.unwrap();
            &&& *final(player) == (Player { cash: cash_after_spin(old(player).cash, pay_in, s.payout), ..*old(player) })
            &&& r.settled == Some(s)
            &&& describe_all(r.message.components@) == slots_screen(
                pay_in,
                Some(final(player).cash),
                Some(s),
                None,
                PLAYER_SPIN_PREFIX@,
                symbol_values@,
            )
            &&& if s.payout > 0 && first_five_from(s.wins@, 0) is Some {
                r.activity matches Some(a) && a.key == "chud_jackpot_slots" && a.args_view() == seq![
                    first_word(old(player).chud.unwrap().name@),
                    dec_int(s.payout as int),
                ]
            } else {
                r.activity is None
            }
        },
{
    match validate_pay_in(pay_in) {
        Err(msg) => {
            let shown = if pay_in < 1 {
                1
            } else {
                pay_in
            };
            let message = build_slots_message(shown, Some(player.cash), None, Some(msg), PLAYER_SPIN_PREFIX, symbol_values);
            PlayerSpinResponse { message, settled: None, activity: None }
        },
        Ok(()) => {
            if player.cash < pay_in {
                let message = build_slots_message(
                    pay_in,
                    Some(player.cash),
                    None,
                    Some(insufficient_funds_notice()),
                    PLAYER_SPIN_PREFIX,
                    symbol_values,
                );
                return PlayerSpinResponse { message, settled: None, activity: None };
            }
            let first_name = first_word_of(player.chud_ref().name.as_str());
            match spin_for_player(player, pay_in, spin.unwrap()) {
                Ok(s) => {
                    let activity = if s.payout > 0 && s.mini_jackpot_symbol().is_some() {
                        let mut payout = String::new();
                        push_int(&mut payout, s.payout);
                        Some(chud_msg_2("chud_jackpot_slots", first_name, payout))
                    } else {
                        None
                    };
                    let message = build_slots_message(pay_in, Some(player.cash), Some(&s), None, PLAYER_SPIN_PREFIX, symbol_values);
                    PlayerSpinResponse { message, settled: Some(s), activity }
                },
                Err(SlotsError::InsufficientFunds) => {
                    let message = build_slots_message(
                        pay_in,
                        Some(player.cash),
                        None,
                        Some(insufficient_funds_notice()),
                        PLAYER_SPIN_PREFIX,
                        symbol_values,
                    );
                    PlayerSpinResponse { message, settled: None, activity: None }
                },
            }
        },
    }
}

} // verus!
