use vstd::prelude::*;

use crate::discord::components_v2::{
    button_desc, components_v2_flags, describe, describe_all, lemma_describe_buttons, ActionRow,
    ActionRowChild, Button, ButtonDesc, Component, ComponentDesc, ComponentsV2Message, Separator,
    TextDisplay, STYLE_DANGER, STYLE_SECONDARY, TYPE_ACTION_ROW, TYPE_BUTTON,
};
use crate::discord::formatting::{format_item_block, item_block_text};
use crate::discord::messages::{chud_msg_2, ChudMsg};
use crate::discord::ui::{push_status_notice, status_notice_descs};
use crate::game::busy::BusyReason;
use crate::game::domain::item::{EquipmentSlot, Item};
use crate::game::domain::player::Player;
use crate::game::domain::stash::STASH_CAPACITY;
use crate::game::persistence::item_registry::{lookup, ItemRegistry};
use crate::text::{dec, first_word, first_word_of, owned, push_dec, push_str, strip_prefix, strip_prefix_spec};
use crate::game::domain::board::Board;
use crate::game::domain::hospital::Hospital;
use crate::game::domain::item::{parse_u32, u32_text_value};
use crate::game::domain::stash::StashError;
use crate::game::engine::{equip_from_stash, equip_result, is_item_equipped, owns, sell_item, sell_result, unequip_result, unequip_slot, EngineError};
use crate::game::merchant::MerchantState;

verus! {

#[derive(Debug, Clone, Copy, PartialEq, Eq, Structural)]
pub enum GearInteractionMode {
    Full,
    EquipmentLocked,
    ReadOnly,
}

/// Read-only once the game is over; locked while the chud is busy; else full.
pub fn derive_gear_mode(read_only: bool, busy_reason: Option<BusyReason>) -> (r: GearInteractionMode)
    ensures
        r == (if read_only {
            GearInteractionMode::ReadOnly
        } else if busy_reason is Some {
            GearInteractionMode::EquipmentLocked
        } else {
            GearInteractionMode::Full
        }),
{
    if read_only {
        GearInteractionMode::ReadOnly
    } else if busy_reason.is_some() {
        GearInteractionMode::EquipmentLocked
    } else {
        GearInteractionMode::Full
    }
}

/// What the chud is doing, in the locked-gear notice.
pub open spec fn busy_status_text(reason: BusyReason) -> Seq<char> {
    match reason {
        BusyReason::ActiveQuest { quest_title } => "on the job \""@ + quest_title@ + "\""@,
        BusyReason::Scouting => "out scouting"@,
        _ => "in the hospital"@,
    }
}

/// The `gear_equipment_locked` line about the chud and what it is doing.
pub fn gear_equipment_locked_notice(reason: BusyReason, player: &Player) -> (r: ChudMsg)
    requires
        player.chud is Some,
        !(reason is ReturningFromJob),
    ensures
        r.key@ == "gear_equipment_locked"@,
        r.args_view() == seq![player.chud_of().name@, busy_status_text(reason)],
{
    let name = player.chud_ref().name.clone();
    let status = match reason {
        BusyReason::ActiveQuest { quest_title } => {
            let mut s = owned("on the job \"");
            push_str(&mut s, quest_title.as_str());
            push_str(&mut s, "\"");
            s
        },
        BusyReason::Scouting => owned("out scouting"),
        _ => owned("in the hospital"),
    };
    chud_msg_2("gear_equipment_locked", name, status)
}

/// A notice on the gear screen: plain text, or a flavour line for the bot to render.
#[derive(Debug)]
pub enum GearNotice {
    Text(String),
    Msg(ChudMsg),
}

/// The standing notice of the gear screen: game over, or why the loadout is locked.
pub fn gear_persistent_notice(read_only: bool, busy_reason: Option<BusyReason>, player: &Player) -> (r: Option<GearNotice>)
    requires
        player.chud is Some,
        !(busy_reason matches Some(b) && b is ReturningFromJob),
    ensures
        read_only ==> (r matches Some(GearNotice::Text(t)) && t@ == "The game is over \u{2014} your loadout is locked."@),
        !read_only && busy_reason is None ==> r is None,
        !read_only && busy_reason is Some ==> (r matches Some(GearNotice::Msg(m)) && m.key@ == "gear_equipment_locked"@
            && m.args_view() == seq![player.chud_of().name@, busy_status_text(busy_reason.unwrap())]),
{
    if read_only {
        Some(GearNotice::Text(owned("The game is over \u{2014} your loadout is locked.")))
    } else {
        match busy_reason {
            Some(reason) => Some(GearNotice::Msg(gear_equipment_locked_notice(reason, player))),
            None => None,
        }
    }
}

pub open spec fn sell_button_desc(item_id: u32, value: u32, confirm_pending: bool) -> ButtonDesc {
    if confirm_pending {
        ButtonDesc { custom_id: "g_sell_confirm:"@ + dec(item_id as nat), label: "Are you sure?"@, style: STYLE_DANGER }
    } else {
        ButtonDesc { custom_id: "g_sell:"@ + dec(item_id as nat), label: "Sell $"@ + dec(value as nat), style: STYLE_DANGER }
    }
}

fn id_text(prefix: &str, id: u32) -> (r: String)
    ensures
        r@ == prefix@ + dec(id as nat),
{
    let mut s = owned(prefix);
    push_dec(&mut s, id as u64);
    s
}

fn sell_button(item_id: u32, value: u32, confirm_pending: bool) -> (r: Button)
    ensures
        button_desc(r) == sell_button_desc(item_id, value, confirm_pending),
        r.kind == TYPE_BUTTON,
{
    if confirm_pending {
        Button::danger(id_text("g_sell_confirm:", item_id), owned("Are you sure?"))
    } else {
        Button::danger(id_text("g_sell:", item_id), id_text("Sell $", value))
    }
}

pub open spec fn unequip_button_desc(slot: EquipmentSlot) -> ButtonDesc {
    ButtonDesc { custom_id: "g_unequip:"@ + slot.suffix_spec(), label: "Unequip"@, style: STYLE_SECONDARY }
}

pub open spec fn equip_button_desc(item_id: u32) -> ButtonDesc {
    ButtonDesc { custom_id: "g_equip:"@ + dec(item_id as nat), label: "Equip"@, style: STYLE_SECONDARY }
}

/// A text entry, followed by its row of buttons when it has any.
pub open spec fn entry_descs(text: Seq<char>, buttons: Seq<ButtonDesc>) -> Seq<ComponentDesc> {
    if buttons.len() > 0 {
        seq![ComponentDesc::Text(text), ComponentDesc::Buttons(buttons)]
    } else {
        seq![ComponentDesc::Text(text)]
    }
}

fn push_entry(components: &mut Vec<Component>, text: String, buttons: Vec<Button>)
    requires
        forall|i: int| 0 <= i < buttons@.len() ==> (#[trigger] buttons@[i]).kind == TYPE_BUTTON,
    ensures
        describe_all(final(components)@) == describe_all(old(components)@) + entry_descs(
            text@,
            buttons@.map_values(|b: Button| button_desc(b)),
        ),
{
    let ghost bs = buttons@;
    components.push(Component::Text(TextDisplay::new(text)));
    if buttons.len() > 0 {
        let row = ActionRow::buttons(buttons);
        proof {
            lemma_describe_buttons(bs, row);
        }
        components.push(Component::ActionRow(row));
        assert(describe_all(components@) =~= describe_all(old(components)@) + entry_descs(
            text@,
            bs.map_values(|b: Button| button_desc(b)),
        ));
    } else {
        assert(describe_all(components@) =~= describe_all(old(components)@) + entry_descs(
            text@,
            bs.map_values(|b: Button| button_desc(b)),
        ));
    }
}

/// A slot's block: its label, then the item's block or `*(empty)*`.
pub open spec fn equipped_block_text(slot: EquipmentSlot, item: Option<Item>) -> Seq<char> {
    "**"@ + slot.label_spec() + "**\n"@ + match item {
        Some(it) => item_block_text(it),
        None => "*(empty)*"@,
    }
}

fn format_equipped_block(slot: EquipmentSlot, item: Option<&Item>) -> (r: String)
    ensures
        r@ == equipped_block_text(
            slot,
            match item {
                Some(it) => Some(*it),
                None => None,
            },
        ),
{
    let mut s = owned("**");
    push_str(&mut s, slot.label());
    push_str(&mut s, "**\n");
    match item {
        Some(it) => {
            let b = format_item_block(it);
            push_str(&mut s, b.as_str());
        },
        None => {
            push_str(&mut s, "*(empty)*");
        },
    }
    s
}

/// The buttons of an equipped slot: unequip and sell, on the full screen, for a known item.
pub open spec fn slot_buttons(slot: EquipmentSlot, item: Option<Item>, confirm: Option<u32>, mode: GearInteractionMode) -> Seq<ButtonDesc> {
    match (mode, item) {
        (GearInteractionMode::Full, Some(it)) => seq![
            unequip_button_desc(slot),
            sell_button_desc(it.id, it.value, confirm == Some(it.id)),
        ],
        _ => Seq::empty(),
    }
}

pub open spec fn slot_descs(p: Player, items: Seq<Item>, slot: EquipmentSlot, confirm: Option<u32>, mode: GearInteractionMode) -> Seq<ComponentDesc> {
    let item = match p.chud_of().equipment.slot_value(slot) {
        Some(id) => lookup(items, id),
        None => None,
    };
    entry_descs(equipped_block_text(slot, item), slot_buttons(slot, item, confirm, mode))
}

/// The buttons of a stashed item: equip (full screen only) and sell, none when read-only.
pub open spec fn stash_buttons(item: Item, confirm: Option<u32>, mode: GearInteractionMode) -> Seq<ButtonDesc> {
    match mode {
        GearInteractionMode::ReadOnly => Seq::empty(),
        GearInteractionMode::EquipmentLocked => seq![sell_button_desc(item.id, item.value, confirm == Some(item.id))],
        GearInteractionMode::Full => seq![
            equip_button_desc(item.id),
            sell_button_desc(item.id, item.value, confirm == Some(item.id)),
        ],
    }
}

/// Entries of the stashed items the registry knows, in stash order.
pub open spec fn stash_descs(ids: Seq<u32>, items: Seq<Item>, confirm: Option<u32>, mode: GearInteractionMode) -> Seq<ComponentDesc>
    decreases ids.len(),
{
    if ids.len() == 0 {
        Seq::empty()
    } else {
        stash_descs(ids.drop_last(), items, confirm, mode) + match lookup(items, ids.last()) {
            Some(it) => {
                let it2 = it;
                entry_descs(item_block_text(it2), stash_buttons(it2, confirm, mode))
            },
            None => Seq::empty(),
        }
    }
}

/// The whole gear screen, component by component.
pub open spec fn gear_screen(p: Player, items: Seq<Item>, notice: Option<Seq<char>>, confirm: Option<u32>, mode: GearInteractionMode) -> Seq<ComponentDesc> {
    seq![ComponentDesc::Text("**Equipped** \u{2014} $"@ + dec(p.cash as nat) + " on hand"@)]
        + slot_descs(p, items, EquipmentSlot::Gear, confirm, mode) + slot_descs(p, items, EquipmentSlot::Weapon, confirm, mode)
        + slot_descs(p, items, EquipmentSlot::Misc0, confirm, mode) + slot_descs(p, items, EquipmentSlot::Misc1, confirm, mode)
        + seq![
        ComponentDesc::Section,
        ComponentDesc::Text("**Stash** ("@ + dec(p.stash@.len()) + "/"@ + dec(STASH_CAPACITY as nat) + ")"@),
    ] + (if p.stash@.len() == 0 {
        seq![ComponentDesc::Text("*(empty)*"@)]
    } else {
        stash_descs(p.stash@, items, confirm, mode)
    }) + status_notice_descs(notice)
}

fn push_slot_entry(
    components: &mut Vec<Component>,
    player: &Player,
    registry: &ItemRegistry,
    slot: EquipmentSlot,
    sell_confirm_item_id: Option<u32>,
    mode: GearInteractionMode,
)
    requires
        player.chud is Some,
    ensures
        describe_all(final(components)@) == describe_all(old(components)@) + slot_descs(
            *player,
            registry.items@,
            slot,
            sell_confirm_item_id,
            mode,
        ),
{
    let item: Option<&Item> = match player.chud_ref().equipment.item_id_in_slot(slot) {
        Some(id) => registry.get(id),
        None => None,
    };
    let mut buttons: Vec<Button> = Vec::new();
    match (mode, item) {
        (GearInteractionMode::Full, Some(it)) => {
            buttons.push(Button::secondary(crate::text::concat2("g_unequip:", slot.custom_id_suffix()), owned("Unequip")));
            buttons.push(sell_button(it.id, it.value, sell_confirm_item_id == Some(it.id)));
        },
        _ => {},
    }
    let ghost want_item = match item {
        Some(it) => Some(*it),
        None => None,
    };
    assert(buttons@.map_values(|b: Button| button_desc(b)) =~= slot_buttons(slot, want_item, sell_confirm_item_id, mode));
    push_entry(components, format_equipped_block(slot, item), buttons);
}

/// The gear screen: the equipped slots with their buttons, the stash with its buttons, and
/// the status notice. Which buttons show depends on the mode: none when read-only, only
/// selling of stashed items while locked, everything on the full screen; a sell button
/// awaiting confirmation asks "Are you sure?".
pub fn build_gear_message(
    player: &Player,
    registry: &ItemRegistry,
    notice: Option<&str>,
    sell_confirm_item_id: Option<u32>,
    mode: GearInteractionMode,
) -> (r: ComponentsV2Message)
    requires
        player.chud is Some,
    ensures
        r.flags == 0x8040,
        describe_all(r.components@) == gear_screen(
            *player,
            registry.items@,
            match notice {
                Some(n) => Some(n@),
                None => None,
            },
            sell_confirm_item_id,
            mode,
        ),
{
    let mut components: Vec<Component> = Vec::new();
    let mut head = owned("**Equipped** \u{2014} $");
    push_dec(&mut head, player.cash as u64);
    push_str(&mut head, " on hand");
    components.push(Component::Text(TextDisplay::new(head)));
    push_slot_entry(&mut components, player, registry, EquipmentSlot::Gear, sell_confirm_item_id, mode);
    push_slot_entry(&mut components, player, registry, EquipmentSlot::Weapon, sell_confirm_item_id, mode);
    push_slot_entry(&mut components, player, registry, EquipmentSlot::Misc0, sell_confirm_item_id, mode);
    push_slot_entry(&mut components, player, registry, EquipmentSlot::Misc1, sell_confirm_item_id, mode);
    let ghost after_slots = describe_all(components@);
    components.push(Component::Separator(Separator::section()));
    let mut stash_head = owned("**Stash** (");
    push_dec(&mut stash_head, player.stash.len() as u64);
    push_str(&mut stash_head, "/");
    push_dec(&mut stash_head, STASH_CAPACITY as u64);
    push_str(&mut stash_head, ")");
    components.push(Component::Text(TextDisplay::new(stash_head)));
    let ghost after_head = describe_all(components@);
    assert(after_head =~= after_slots + seq![
        ComponentDesc::Section,
        ComponentDesc::Text("**Stash** ("@ + dec(player.stash@.len()) + "/"@ + dec(STASH_CAPACITY as nat) + ")"@),
    ]);
    if player.stash.is_empty() {
        components.push(Component::Text(TextDisplay::new(owned("*(empty)*"))));
        assert(describe_all(components@) =~= after_head + seq![ComponentDesc::Text("*(empty)*"@)]);
    } else {
        let ids = player.stash.items();
        let mut i: usize = 0;
        while i < ids.len()
            invariant
                i <= ids@.len(),
                ids@ == player.stash@,
                describe_all(components@) == after_head + stash_descs(ids@.subrange(0, i as int), registry.items@, sell_confirm_item_id, mode),
            decreases ids@.len() - i,
        {
            assert(ids@.subrange(0, i + 1).drop_last() =~= ids@.subrange(0, i as int));
            let item_id = ids[i];
            let ghost before = describe_all(components@);
            match registry.get(item_id) {
                Some(item) => {
                    let mut buttons: Vec<Button> = Vec::new();
                    match mode {
                        GearInteractionMode::ReadOnly => {},
                        GearInteractionMode::EquipmentLocked => {
                            buttons.push(sell_button(item_id, item.value, sell_confirm_item_id == Some(item_id)));
                        },
                        GearInteractionMode::Full => {
                            buttons.push(Button::secondary(id_text("g_equip:", item_id), owned("Equip")));
                            buttons.push(sell_button(item_id, item.value, sell_confirm_item_id == Some(item_id)));
                        },
                    }
                    assert(item.id == item_id) by {
                        crate::game::persistence::item_registry::lemma_first_item_found(registry.items@, item_id, 0);
                    }
                    assert(buttons@.map_values(|b: Button| button_desc(b)) =~= stash_buttons(*item, sell_confirm_item_id, mode));
                    push_entry(&mut components, format_item_block(item), buttons);
                },
                None => {
                    assert(describe_all(components@) =~= before + Seq::<ComponentDesc>::empty());
                },
            }
            i += 1;
        }
        assert(ids@.subrange(0, i as int) =~= ids@);
    }
    let ghost before_notice = describe_all(components@);
    push_status_notice(&mut components, notice);
    ComponentsV2Message { flags: components_v2_flags(), components }
}

/// A gear notice seen through its text.
pub enum NoticeView {
    Text(Seq<char>),
    Msg(Seq<char>, Seq<Seq<char>>),
}

pub open spec fn notice_view(n: GearNotice) -> NoticeView {
    match n {
        GearNotice::Text(t) => NoticeView::Text(t@),
        GearNotice::Msg(m) => NoticeView::Msg(m.key@, m.args_view()),
    }
}

pub open spec fn opt_notice_view(n: Option<GearNotice>) -> Option<NoticeView> {
    match n {
        Some(x) => Some(notice_view(x)),
        None => None,
    }
}

pub open spec fn msg_view(m: Option<ChudMsg>) -> Option<NoticeView> {
    match m {
        Some(x) => Some(NoticeView::Msg(x.key@, x.args_view())),
        None => None,
    }
}

/// The locked-gear line for the busy reason, when there is one.
pub open spec fn busy_notice(reason: Option<BusyReason>, p: Player) -> Option<NoticeView> {
    match reason {
        Some(b) => Some(NoticeView::Msg("gear_equipment_locked"@, seq![p.chud_of().name@, busy_status_text(b)])),
        None => None,
    }
}

pub open spec fn text_notice(t: Seq<char>) -> Option<NoticeView> {
    Some(NoticeView::Text(t))
}

/// A gear button press, read from its custom id.
pub enum GearAction {
    Unequip(Seq<char>),
    Equip(Seq<char>),
    Sell(Seq<char>),
    SellConfirm(Seq<char>),
    Other,
}

pub open spec fn gear_action(id: Seq<char>) -> GearAction {
    match strip_prefix_spec(id, "g_unequip:"@) {
        Some(rest) => GearAction::Unequip(rest),
        None => match strip_prefix_spec(id, "g_equip:"@) {
            Some(rest) => GearAction::Equip(rest),
            None => match strip_prefix_spec(id, "g_sell:"@) {
                Some(rest) => GearAction::Sell(rest),
                None => match strip_prefix_spec(id, "g_sell_confirm:"@) {
                    Some(rest) => GearAction::SellConfirm(rest),
                    None => GearAction::Other,
                },
            },
        },
    }
}

pub open spec fn slot_of_suffix(s: Seq<char>) -> Option<EquipmentSlot> {
    if s == "gear"@ {
        Some(EquipmentSlot::Gear)
    } else if s == "weapon"@ {
        Some(EquipmentSlot::Weapon)
    } else if s == "misc0"@ {
        Some(EquipmentSlot::Misc0)
    } else if s == "misc1"@ {
        Some(EquipmentSlot::Misc1)
    } else {
        None
    }
}

/// The name an action notice uses for an item: its registered name, or `item`.
pub open spec fn item_name_or_default(items: Seq<Item>, id: Option<u32>) -> Seq<char> {
    match id {
        Some(i) => match lookup(items, i) {
            Some(it) => it.name@,
            None => "item"@,
        },
        None => "item"@,
    }
}

pub open spec fn stash_full_text() -> Seq<char> {
    "Stash is full ("@ + dec(STASH_CAPACITY as nat) + "/"@ + dec(STASH_CAPACITY as nat) + ")."@
}

pub open spec fn unequip_notice(e: Result<(), EngineError>, name: Seq<char>, busy: Option<NoticeView>) -> Option<NoticeView> {
    match e {
        Ok(()) => text_notice("Unequipped "@ + name + "."@),
        Err(EngineError::EquipmentLocked) => busy,
        Err(EngineError::Stash(StashError::Full)) => text_notice(stash_full_text()),
        Err(EngineError::SlotEmpty) => text_notice("That slot is already empty."@),
        Err(_) => text_notice("Could not unequip that item."@),
    }
}

pub open spec fn equip_notice(e: Result<(), EngineError>, name: Seq<char>, busy: Option<NoticeView>) -> Option<NoticeView> {
    match e {
        Ok(()) => text_notice("Equipped "@ + name + "."@),
        Err(EngineError::EquipmentLocked) => busy,
        Err(EngineError::ItemNotInStash) => text_notice("That item is no longer in your stash."@),
        Err(EngineError::Stash(StashError::Full)) => text_notice(stash_full_text()),
        Err(_) => text_notice("Could not equip that item."@),
    }
}

pub open spec fn sell_notice(e: Result<u32, EngineError>, name: Seq<char>, first_name: Seq<char>, busy: Option<NoticeView>) -> (Option<NoticeView>, Option<NoticeView>) {
    match e {
        Ok(gold) => (
            text_notice("Sold "@ + name + " for $"@ + dec(gold as nat) + "."@),
            Some(NoticeView::Msg("chud_sells_item"@, seq![first_name, name])),
        ),
        Err(EngineError::EquipmentLocked) => (busy, None),
        Err(EngineError::ItemNotOwned) => (text_notice("You don't have that item."@), None),
        Err(EngineError::ItemNotFound) => (text_notice("That item no longer exists."@), None),
        Err(_) => (text_notice("Could not sell that item."@), None),
    }
}

fn text(t: &str) -> (r: Option<GearNotice>)
    ensures
        opt_notice_view(r) == text_notice(t@),
{
    Some(GearNotice::Text(owned(t)))
}

fn locked_notice(busy_reason: Option<BusyReason>, player: &Player) -> (r: Option<GearNotice>)
    requires
        player.chud is Some,
        !(busy_reason matches Some(b) && b is ReturningFromJob),
    ensures
        opt_notice_view(r) == busy_notice(busy_reason, *player),
{
    match busy_reason {
        Some(reason) => Some(GearNotice::Msg(gear_equipment_locked_notice(reason, player))),
        None => None,
    }
}

fn item_name(registry: &ItemRegistry, id: Option<u32>) -> (r: String)
    ensures
        r@ == item_name_or_default(registry.items@, id),
{
    match id {
        Some(i) => match registry.get(i) {
            Some(it) => it.name.clone(),
            None => owned("item"),
        },
        None => owned("item"),
    }
}

fn stash_full_notice() -> (r: Option<GearNotice>)
    ensures
        opt_notice_view(r) == text_notice(stash_full_text()),
{
    let mut s = owned("Stash is full (");
    push_dec(&mut s, STASH_CAPACITY as u64);
    push_str(&mut s, "/");
    push_dec(&mut s, STASH_CAPACITY as u64);
    push_str(&mut s, ").");
    Some(GearNotice::Text(s))
}

/// Carry out a gear button press: unequip a slot, equip a stashed item, ask to confirm a
/// sale, or sell. Returns the notice to show, the item awaiting sale confirmation, and the
/// activity-log line of a sale. While the loadout is locked, unequipping, equipping and
/// selling equipped items answer with why it is locked; malformed ids answer
/// "Unknown action."; failures of the underlying operation answer with what went wrong.
pub fn apply_gear_action(
    player: &mut Player,
    custom_id: &str,
    registry: &ItemRegistry,
    merchant: &mut MerchantState,
    mode: GearInteractionMode,
    board: &Board,
    hospital: &Hospital,
    busy_reason: Option<BusyReason>,
) -> (r: (Option<GearNotice>, Option<u32>, Option<ChudMsg>))
    requires
        old(player).chud is Some,
        !(busy_reason matches Some(b) && b is ReturningFromJob),
    ensures
        ({
            let p0 = *old(player);
            let p1 = *final(player);
            let busy = busy_notice(busy_reason, p0);
            let unchanged = p1 == p0 && *final(merchant) == *old(merchant);
            let notice = opt_notice_view(r.0);
            match gear_action(custom_id@) {
                GearAction::Unequip(suffix) => if mode == GearInteractionMode::EquipmentLocked {
                    notice == busy && r.1 is None && r.2 is None && unchanged
                } else {
                    match slot_of_suffix(suffix) {
                        None => notice == text_notice("Unknown action."@) && r.1 is None && r.2 is None && unchanged,
                        Some(slot) => r.1 is None && r.2 is None && *final(merchant) == *old(merchant) && exists|e: Result<(), EngineError>|
                            #[trigger] unequip_result(*board, *hospital, p0, slot, p1, e) && notice == unequip_notice(
                                e,
                                item_name_or_default(registry.items@, p0.chud_of().equipment.slot_value(slot)),
                                busy,
                            ),
                    }
                },
                GearAction::Equip(t) => if mode == GearInteractionMode::EquipmentLocked {
                    notice == busy && r.1 is None && r.2 is None && unchanged
                } else {
                    match u32_text_value(t) {
                        None => notice == text_notice("Unknown action."@) && r.1 is None && r.2 is None && unchanged,
                        Some(v) => r.1 is None && r.2 is None && *final(merchant) == *old(merchant) && exists|e: Result<(), EngineError>|
                            #[trigger] equip_result(*board, *hospital, p0, v as u32, *registry, p1, e) && notice == equip_notice(
                                e,
                                item_name_or_default(registry.items@, Some(v as u32)),
                                busy,
                            ),
                    }
                },
                GearAction::Sell(t) => unchanged && r.2 is None && match u32_text_value(t) {
                    None => notice == text_notice("Unknown action."@) && r.1 is None,
                    Some(v) => {
                        let id = v as u32;
                        if lookup(registry.items@, id) is None {
                            notice == text_notice("That item no longer exists."@) && r.1 is None
                        } else if !owns(p0, id) {
                            notice == text_notice("You don't have that item."@) && r.1 is None
                        } else if mode == GearInteractionMode::EquipmentLocked && p0.chud_of().equipment.ids().contains(id) {
                            notice == busy && r.1 is None
                        } else {
                            notice is None && r.1 == Some(id)
                        }
                    },
                },
                GearAction::SellConfirm(t) => r.1 is None && match u32_text_value(t) {
                    None => notice == text_notice("Unknown action."@) && r.2 is None && unchanged,
                    Some(v) => {
                        let id = v as u32;
                        if mode == GearInteractionMode::EquipmentLocked && p0.chud_of().equipment.ids().contains(id) {
                            notice == busy && r.2 is None && unchanged
                        } else {
                            exists|e: Result<u32, EngineError>| #[trigger] sell_result(*board, *hospital, p0, *registry, *old(merchant), id, p1, *final(merchant), e)
                                && (notice, msg_view(r.2)) == sell_notice(
                                e,
                                item_name_or_default(registry.items@, Some(id)),
                                first_word(p0.chud_of().name@),
                                busy,
                            )
                        }
                    },
                },
                GearAction::Other => notice is None && r.1 is None && r.2 is None && unchanged,
            }
        }),
{
    match strip_prefix(custom_id, "g_unequip:") {
        Some(suffix) => {
            if mode == GearInteractionMode::EquipmentLocked {
                return (locked_notice(busy_reason, player), None, None);
            }
            let slot = match EquipmentSlot::parse_suffix(suffix.as_str()) {
                Some(slot) => slot,
                None => {
                    return (text("Unknown action."), None, None);
                },
            };
            let name = item_name(registry, player.chud_ref().equipment.item_id_in_slot(slot));
            let ghost p0 = *player;
            let busy = locked_notice(busy_reason, player);
            let result = unequip_slot(board, hospital, player, slot);
            let notice = match result {
                Ok(()) => {
                    let mut s = owned("Unequipped ");
                    push_str(&mut s, name.as_str());
                    push_str(&mut s, ".");
                    Some(GearNotice::Text(s))
                },
                Err(EngineError::EquipmentLocked) => busy,
                Err(EngineError::Stash(StashError::Full)) => stash_full_notice(),
                Err(EngineError::SlotEmpty) => text("That slot is already empty."),
                Err(_) => text("Could not unequip that item."),
            };
            return (notice, None, None);
        },
        None => {},
    }
    match strip_prefix(custom_id, "g_equip:") {
        Some(id_str) => {
            if mode == GearInteractionMode::EquipmentLocked {
                return (locked_notice(busy_reason, player), None, None);
            }
            let item_id = match parse_u32(id_str.as_str()) {
                Some(id) => id,
                None => {
                    return (text("Unknown action."), None, None);
                },
            };
            let name = item_name(registry, Some(item_id));
            let busy = locked_notice(busy_reason, player);
            let result = equip_from_stash(board, hospital, player, item_id, registry);
            let notice = match result {
                Ok(()) => {
                    let mut s = owned("Equipped ");
                    push_str(&mut s, name.as_str());
                    push_str(&mut s, ".");
                    Some(GearNotice::Text(s))
                },
                Err(EngineError::EquipmentLocked) => busy,
                Err(EngineError::ItemNotInStash) => text("That item is no longer in your stash."),
                Err(EngineError::Stash(StashError::Full)) => stash_full_notice(),
                Err(_) => text("Could not equip that item."),
            };
            return (notice, None, None);
        },
        None => {},
    }
    match strip_prefix(custom_id, "g_sell:") {
        Some(id_str) => {
            let item_id = match parse_u32(id_str.as_str()) {
                Some(id) => id,
                None => {
                    return (text("Unknown action."), None, None);
                },
            };
            if registry.get(item_id).is_none() {
                return (text("That item no longer exists."), None, None);
            }
            if !player.stash.contains(item_id) && !is_item_equipped(player, item_id) {
                return (text("You don't have that item."), None, None);
            }
            if mode == GearInteractionMode::EquipmentLocked && is_item_equipped(player, item_id) {
                return (locked_notice(busy_reason, player), None, None);
            }
            return (None, Some(item_id), None);
        },
        None => {},
    }
    match strip_prefix(custom_id, "g_sell_confirm:") {
        Some(id_str) => {
            let item_id = match parse_u32(id_str.as_str()) {
                Some(id) => id,
                None => {
                    return (text("Unknown action."), None, None);
                },
            };
            if mode == GearInteractionMode::EquipmentLocked && is_item_equipped(player, item_id) {
                return (locked_notice(busy_reason, player), None, None);
            }
            let name = item_name(registry, Some(item_id));
            let first_name = first_word_of(player.chud_ref().name.as_str());
            let busy = locked_notice(busy_reason, player);
            let result = sell_item(board, hospital, player, registry, merchant, item_id);
            let (notice, log) = match result {
                Ok(gold) => {
                    let mut s = owned("Sold ");
                    push_str(&mut s, name.as_str());
                    push_str(&mut s, " for $");
                    push_dec(&mut s, gold as u64);
                    push_str(&mut s, ".");
                    (Some(GearNotice::Text(s)), Some(chud_msg_2("chud_sells_item", first_name, name)))
                },
                Err(EngineError::EquipmentLocked) => (busy, None),
                Err(EngineError::ItemNotOwned) => (text("You don't have that item."), None),
                Err(EngineError::ItemNotFound) => (text("That item no longer exists."), None),
                Err(_) => (text("Could not sell that item."), None),
            };
            return (notice, None, log);
        },
        None => {},
    }
    (None, None, None)
}

} // verus!
