use vstd::prelude::*;

use crate::discord::components_v2::{
    button_desc, components_v2_flags, Container, ContainerChild, FLAG_IS_COMPONENTS_V2, TYPE_CONTAINER, TYPE_TEXT_DISPLAY, describe, describe_all, lemma_describe_buttons,
    option_desc, ActionRow, ActionRowChild, Button, ButtonDesc, Component, ComponentDesc,
    ComponentsV2Message, OptionDesc, SelectOption, StringSelect, TextDisplay, STYLE_PRIMARY,
    TYPE_ACTION_ROW, TYPE_STRING_SELECT,
};
use crate::discord::formatting::{format_item_block, item_block_text};
use crate::discord::messages::{chud_msg_3, ChudMsg};
use crate::discord::ui::{no_chud_message, push_status_notice, status_notice_descs};
use crate::game::merchant::{buy_applied, buy_result, BuyError, MerchantCatalog, MerchantState};
use crate::game::persistence::message_cache::MessageCache;
use crate::game::domain::item::Item;
use crate::game::domain::player::Player;
use crate::game::merchant::MerchantVisit;
use crate::game::persistence::item_registry::{lookup, ItemRegistry};
use crate::text::{
    collapse_whitespace_chars, collapse_ws, dec, dec_string, first_word, first_word_of, owned,
    push_dec, push_str, string_eq,
};

verus! {

/// Which merchant a visit announcement was made for: `index:name`.
pub open spec fn visit_identity_text(visit: MerchantVisit) -> Seq<char> {
    dec(visit.merchant_index as nat) + ":"@ + visit.merchant_name@
}

fn merchant_visit_identity(visit: &MerchantVisit) -> (r: String)
    ensures
        r@ == visit_identity_text(*visit),
{
    let mut s = dec_string(visit.merchant_index as u64);
    push_str(&mut s, ":");
    push_str(&mut s, visit.merchant_name.as_str());
    s
}

pub open spec fn opt_string(o: Option<String>) -> Option<Seq<char>> {
    match o {
        Some(s) => Some(s@),
        None => None,
    }
}

/// The visiting announcement to show, reusing the cached one while the same merchant stays.
/// Without a visit the cached announcement is dropped. When a visit starts, or another
/// merchant replaces the announced one, `announcement` (a freshly rendered visiting line for
/// this merchant) is cached with the visit's identity. The flag tells whether the cache
/// changed.
pub fn resolve_merchant_visit_text(
    merchant: &MerchantState,
    cache: &mut MessageCache,
    announcement: String,
) -> (r: (Option<String>, bool))
    ensures
        match merchant.visit {
            None => {
                &&& r.0 is None
                &&& r.1 == (old(cache).merchant_visit_text is Some || old(cache).merchant_visit_identity is Some)
                &&& *final(cache) == (MessageCache {
                    merchant_visit_text: None,
                    merchant_visit_identity: None,
                    ..*old(cache)
                })
            },
            Some(v) => if opt_string(old(cache).merchant_visit_identity) == Some(visit_identity_text(v)) {
                &&& !r.1
                &&& *final(cache) == *old(cache)
                &&& opt_string(r.0) == opt_string(old(cache).merchant_visit_text)
            } else {
                &&& r.1
                &&& opt_string(r.0) == Some(announcement@)
                &&& final(cache).merchant_visit_text == Some(announcement)
                &&& opt_string(final(cache).merchant_visit_identity) == Some(visit_identity_text(v))
                &&& *final(cache) == (MessageCache {
                    merchant_visit_text: final(cache).merchant_visit_text,
                    merchant_visit_identity: final(cache).merchant_visit_identity,
                    ..*old(cache)
                })
            },
        },
{
    match &merchant.visit {
        None => {
            let dirty = cache.merchant_visit_text.is_some() || cache.merchant_visit_identity.is_some();
            if dirty {
                cache.merchant_visit_text = None;
                cache.merchant_visit_identity = None;
            }
            (None, dirty)
        },
        Some(visit) => {
            let identity = merchant_visit_identity(visit);
            let same = match &cache.merchant_visit_identity {
                Some(known) => string_eq(known, &identity),
                None => false,
            };
            if same {
                let text = match &cache.merchant_visit_text {
                    Some(t) => Some(t.clone()),
                    None => None,
                };
                (text, false)
            } else {
                let shown = announcement.clone();
                cache.merchant_visit_text = Some(announcement);
                cache.merchant_visit_identity = Some(identity);
                (Some(shown), true)
            }
        },
    }
}

/// The merchant area of the channel: an empty spacer without a visit, else a box with the
/// announcement and a Shop button.
pub fn build_merchant_channel_message(visit_text: Option<&str>) -> (r: ComponentsV2Message)
    ensures
        r.flags == FLAG_IS_COMPONENTS_V2,
        match visit_text {
            None => describe_all(r.components@) == seq![ComponentDesc::Text("\u{200B}\n\u{200B}"@)],
            Some(text) => {
                &&& r.components@.len() == 1
                &&& r.components@[0] matches Component::Container(k)
                &&& k.kind == TYPE_CONTAINER && k.accent_color is None && !k.spoiler && k.components@.len() == 2
                &&& k.components@[0] == ContainerChild::Text(TextDisplay { kind: TYPE_TEXT_DISPLAY, content: k.components@[0]->Text_0.content })
                &&& k.components@[0]->Text_0.content@ == text@
                &&& k.components@[1] matches ContainerChild::ActionRow(row)
                &&& describe(Component::ActionRow(row)) == ComponentDesc::Buttons(seq![
                    ButtonDesc { custom_id: "merchant:shop"@, label: "Shop"@, style: STYLE_PRIMARY },
                ])
            },
        },
{
    match visit_text {
        None => {
            let mut v: Vec<Component> = Vec::new();
            v.push(Component::Text(TextDisplay::new(owned("\u{200B}\n\u{200B}"))));
            assert(describe_all(v@) =~= seq![ComponentDesc::Text("\u{200B}\n\u{200B}"@)]);
            ComponentsV2Message::channel(v)
        },
        Some(text) => {
            let mut inner: Vec<ContainerChild> = Vec::new();
            inner.push(ContainerChild::Text(TextDisplay::new(owned(text))));
            let button = Button::primary(owned("merchant:shop"), owned("Shop"));
            let row = ActionRow::one_button(button);
            proof {
                let bs = seq![button];
                assert(row.components@ =~= bs.map_values(|b: Button| ActionRowChild::Button(b)));
                lemma_describe_buttons(bs, row);
                assert(bs.map_values(|b: Button| button_desc(b)) =~= seq![
                    ButtonDesc { custom_id: "merchant:shop"@, label: "Shop"@, style: STYLE_PRIMARY },
                ]);
            }
            inner.push(ContainerChild::ActionRow(row));
            ComponentsV2Message::channel_box(inner, None)
        },
    }
}

/// The shop title in bold, with the merchant's theme (white space collapsed) as a subtext
/// line when there is one.
pub open spec fn shop_header_text(name: Seq<char>, theme: Seq<char>) -> Seq<char> {
    if collapse_ws(theme).len() == 0 {
        "**"@ + name + "**"@
    } else {
        "**"@ + name + "**\n-# "@ + collapse_ws(theme)
    }
}

pub fn format_shop_header(name: &str, theme: &str) -> (r: String)
    ensures
        r@ == shop_header_text(name@, theme@),
{
    let theme_line = collapse_whitespace_chars(theme);
    let mut s = owned("**");
    push_str(&mut s, name);
    if theme_line.as_str().unicode_len() == 0 {
        push_str(&mut s, "**");
    } else {
        push_str(&mut s, "**\n-# ");
        push_str(&mut s, theme_line.as_str());
    }
    s
}

/// The slots below `n` whose stocked id the registry still knows, in order.
pub open spec fn available_slots(stock: Seq<u32>, items: Seq<Item>, n: int) -> Seq<usize>
    decreases n,
{
    if n <= 0 {
        Seq::empty()
    } else if lookup(items, stock[n - 1]) is Some {
        available_slots(stock, items, n - 1).push((n - 1) as usize)
    } else {
        available_slots(stock, items, n - 1)
    }
}

proof fn lemma_available_slots(stock: Seq<u32>, items: Seq<Item>, n: int)
    requires
        0 <= n <= stock.len(),
        stock.len() <= usize::MAX,
    ensures
        forall|k: int| 0 <= k < available_slots(stock, items, n).len() ==> {
            let s = #[trigger] available_slots(stock, items, n)[k];
            s < n && lookup(items, stock[s as int]) is Some
        },
    decreases n,
{
    if n > 0 {
        lemma_available_slots(stock, items, n - 1);
        let prev = available_slots(stock, items, n - 1);
        if lookup(items, stock[n - 1]) is Some {
            assert(available_slots(stock, items, n) == prev.push((n - 1) as usize));
            assert forall|k: int| 0 <= k < available_slots(stock, items, n).len() implies {
                let s = #[trigger] available_slots(stock, items, n)[k];
                s < n && lookup(items, stock[s as int]) is Some
            } by {
                if k < prev.len() {
                    assert(available_slots(stock, items, n)[k] == prev[k]);
                }
            }
        }
    }
}

/// The item stocked in a slot.
pub open spec fn slot_item(stock: Seq<u32>, items: Seq<Item>, slot: usize) -> Item {
    lookup(items, stock[slot as int]).unwrap()
}

/// The highlighted slot: the requested one when it is on offer, else the first on offer.
pub open spec fn shop_selection(avail: Seq<usize>, requested: usize) -> usize {
    if avail.contains(requested) {
        requested
    } else {
        avail[0]
    }
}

pub open spec fn shop_option(stock: Seq<u32>, items: Seq<Item>, slot: usize, selected: usize) -> OptionDesc {
    OptionDesc {
        label: slot_item(stock, items, slot).name@,
        value: dec(slot as nat),
        default: if slot == selected {
            Some(true)
        } else {
            None
        },
    }
}

pub open spec fn buy_button_desc(slot: usize, price: u32) -> ButtonDesc {
    ButtonDesc { custom_id: "shop_buy:"@ + dec(slot as nat), label: "Buy $"@ + dec(price as nat), style: STYLE_PRIMARY }
}

/// The shop screen, component by component: the header and the player's cash, then either
/// a sold-out line or each item on offer, a select of them with the highlighted one
/// preselected, and a buy button for it; the status notice last.
pub open spec fn shop_screen(
    visit: MerchantVisit,
    theme: Seq<char>,
    items: Seq<Item>,
    cash: u32,
    requested: usize,
    notice: Option<Seq<char>>,
) -> Seq<ComponentDesc> {
    let stock = visit.stock@;
    let avail = available_slots(stock, items, stock.len() as int);
    let selected = shop_selection(avail, requested);
    seq![
        ComponentDesc::Text(shop_header_text(visit.merchant_name@, theme)),
        ComponentDesc::Text("You have $"@ + dec(cash as nat) + " on hand"@),
    ] + (if avail.len() == 0 {
        seq![ComponentDesc::Text("_The merchant is sold out._"@)]
    } else {
        avail.map_values(|s: usize| ComponentDesc::Text(item_block_text(slot_item(stock, items, s)))) + seq![
            ComponentDesc::Select(
                "shop_select"@,
                Some("Choose an item"@),
                avail.map_values(|s: usize| shop_option(stock, items, s, selected)),
            ),
            ComponentDesc::Buttons(seq![buy_button_desc(selected, slot_item(stock, items, selected).value)]),
        ]
    }) + status_notice_descs(notice)
}

pub open spec fn opt_str(n: Option<&str>) -> Option<Seq<char>> {
    match n {
        Some(t) => Some(t@),
        None => None,
    }
}

/// The shop a player sees during a visit.
pub fn build_shop_message(
    visit: &MerchantVisit,
    merchant_theme: &str,
    registry: &ItemRegistry,
    player: &Player,
    selected_slot: usize,
    notice: Option<&str>,
) -> (r: ComponentsV2Message)
    ensures
        r.flags == 0x8040,
        describe_all(r.components@) == shop_screen(
            *visit,
            merchant_theme@,
            registry.items@,
            player.cash,
            selected_slot,
            opt_str(notice),
        ),
{
    let ghost stock = visit.stock@;
    let ghost items = registry.items@;
    let ghost avail_spec = available_slots(stock, items, stock.len() as int);
    let mut components: Vec<Component> = Vec::new();
    components.push(Component::Text(TextDisplay::new(format_shop_header(visit.merchant_name.as_str(), merchant_theme))));
    let mut cash_line = owned("You have $");
    push_dec(&mut cash_line, player.cash as u64);
    push_str(&mut cash_line, " on hand");
    components.push(Component::Text(TextDisplay::new(cash_line)));
    let ghost head = describe_all(components@);
    assert(head =~= seq![
        ComponentDesc::Text(shop_header_text(visit.merchant_name@, merchant_theme@)),
        ComponentDesc::Text("You have $"@ + dec(player.cash as nat) + " on hand"@),
    ]);

    let mut available: Vec<usize> = Vec::new();
    let mut i: usize = 0;
    while i < visit.stock.len()
        invariant
            i <= visit.stock@.len(),
            stock == visit.stock@,
            items == registry.items@,
            available@ == available_slots(stock, items, i as int),
        decreases visit.stock@.len() - i,
    {
        if registry.get(visit.stock[i]).is_some() {
            available.push(i);
        }
        i += 1;
    }
    proof {
        lemma_available_slots(stock, items, stock.len() as int);
    }

    if available.len() == 0 {
        components.push(Component::Text(TextDisplay::new(owned("_The merchant is sold out._"))));
        push_status_notice(&mut components, notice);
                assert(describe_all(components@) =~= shop_screen(*visit, merchant_theme@, items, player.cash, selected_slot, opt_str(notice)));
        return ComponentsV2Message { flags: components_v2_flags(), components };
    }

    let mut found = false;
    let mut k: usize = 0;
    while k < available.len()
        invariant
            k <= available@.len(),
            found <==> exists|j: int| 0 <= j < k && available@[j] == selected_slot,
        decreases available@.len() - k,
    {
        if available[k] == selected_slot {
            found = true;
        }
        k += 1;
    }
    let selected = if found {
        selected_slot
    } else {
        available[0]
    };
    assert(selected == shop_selection(avail_spec, selected_slot)) by {
        if found {
            let j = choose|j: int| 0 <= j < available@.len() && available@[j] == selected_slot;
            assert(avail_spec.contains(selected_slot));
        } else {
            assert(!avail_spec.contains(selected_slot));
        }
    }
    assert(avail_spec.contains(selected)) by {
        if !found {
            assert(avail_spec[0] == selected);
        }
    }

    let mut options: Vec<SelectOption> = Vec::new();
    let mut k: usize = 0;
    while k < available.len()
        invariant
            k <= available@.len(),
            available@ == avail_spec,
            stock == visit.stock@,
            items == registry.items@,
            forall|j: int| 0 <= j < avail_spec.len() ==> {
                let s = #[trigger] avail_spec[j];
                s < stock.len() && lookup(items, stock[s as int]) is Some
            },
            describe_all(components@) == head + avail_spec.subrange(0, k as int).map_values(
                |s: usize| ComponentDesc::Text(item_block_text(slot_item(stock, items, s))),
            ),
            options@.map_values(|o: SelectOption| option_desc(o)) == avail_spec.subrange(0, k as int).map_values(
                |s: usize| shop_option(stock, items, s, selected),
            ),
        decreases available@.len() - k,
    {
        let slot = available[k];
        assert(avail_spec[k as int] == slot);
        let ghost before = describe_all(components@);
        let ghost before_opts = options@.map_values(|o: SelectOption| option_desc(o));
        match registry.get(visit.stock[slot]) {
            Some(item) => {
                components.push(Component::Text(TextDisplay::new(format_item_block(item))));
                let base = SelectOption::new(item.name.clone(), dec_string(slot as u64));
                let opt = if slot == selected {
                    base.with_default(true)
                } else {
                    base
                };
                options.push(opt);
            },
            None => {
                assert(false);
            },
        }
        assert(avail_spec.subrange(0, k + 1) =~= avail_spec.subrange(0, k as int).push(slot));
        assert(describe_all(components@) =~= before + seq![
            ComponentDesc::Text(item_block_text(slot_item(stock, items, slot))),
        ]);
        assert(options@.map_values(|o: SelectOption| option_desc(o)) =~= before_opts.push(
            shop_option(stock, items, slot, selected),
        ));
        assert(avail_spec.subrange(0, k + 1).map_values(
            |s: usize| ComponentDesc::Text(item_block_text(slot_item(stock, items, s))),
        ) =~= avail_spec.subrange(0, k as int).map_values(
            |s: usize| ComponentDesc::Text(item_block_text(slot_item(stock, items, s))),
        ).push(ComponentDesc::Text(item_block_text(slot_item(stock, items, slot)))));
        assert(avail_spec.subrange(0, k + 1).map_values(|s: usize| shop_option(stock, items, s, selected))
            =~= avail_spec.subrange(0, k as int).map_values(|s: usize| shop_option(stock, items, s, selected)).push(
            shop_option(stock, items, slot, selected),
        ));
        k += 1;
    }
    assert(avail_spec.subrange(0, available@.len() as int) =~= avail_spec);
    let ghost opts = options@;
    let ghost after_items = describe_all(components@);
    let select = StringSelect::new(owned("shop_select"), owned("Choose an item"), options);
    let row = ActionRow::string_select(select);
    assert(describe(Component::ActionRow(row)) == ComponentDesc::Select(
        "shop_select"@,
        Some("Choose an item"@),
        avail_spec.map_values(|s: usize| shop_option(stock, items, s, selected)),
    )) by {
        assert(row.components@[0] is StringSelect);
        assert(!(row.components@[0] is Button));
        assert(!crate::discord::components_v2::all_buttons(row.components@));
    }
    components.push(Component::ActionRow(row));
    let ghost items_map = avail_spec.map_values(|s: usize| ComponentDesc::Text(item_block_text(slot_item(stock, items, s))));
    let ghost sel_desc = ComponentDesc::Select(
        "shop_select"@,
        Some("Choose an item"@),
        avail_spec.map_values(|s: usize| shop_option(stock, items, s, selected)),
    );
    assert(describe_all(components@) =~= head + items_map + seq![sel_desc]);

    let price = match registry.get(visit.stock[selected]) {
        Some(item) => item.value,
        None => 0,
    };
    let mut buy_id = owned("shop_buy:");
    push_dec(&mut buy_id, selected as u64);
    let mut buy_label = owned("Buy $");
    push_dec(&mut buy_label, price as u64);
    let button = Button::primary(buy_id, buy_label);
    let row2 = ActionRow::one_button(button);
    proof {
        let bs = seq![button];
        assert(row2.components@ =~= bs.map_values(|b: Button| ActionRowChild::Button(b)));
        lemma_describe_buttons(bs, row2);
        assert(bs.map_values(|b: Button| button_desc(b)) =~= seq![
            buy_button_desc(selected, slot_item(stock, items, selected).value),
        ]);
    }
    components.push(Component::ActionRow(row2));
    let ghost btn_desc = ComponentDesc::Buttons(seq![buy_button_desc(selected, slot_item(stock, items, selected).value)]);
    assert(describe_all(components@) =~= head + items_map + seq![sel_desc, btn_desc]);
    push_status_notice(&mut components, notice);
        assert(describe_all(components@) =~= shop_screen(*visit, merchant_theme@, items, player.cash, selected_slot, opt_str(notice)));
    ComponentsV2Message { flags: components_v2_flags(), components }
}

/// The line shown when a purchase is refused.
pub open spec fn buy_notice_text(err: BuyError) -> Seq<char> {
    match err {
        BuyError::SoldOut => "Sorry, someone snagged that."@,
        BuyError::InsufficientFunds => "You don't have enough cash."@,
        BuyError::StashFull => "Your stash is full."@,
        BuyError::InvalidSlot => "That item is no longer available."@,
    }
}

pub fn buy_notice(err: BuyError) -> (r: String)
    ensures
        r@ == buy_notice_text(err),
{
    match err {
        BuyError::SoldOut => owned("Sorry, someone snagged that."),
        BuyError::InsufficientFunds => owned("You don't have enough cash."),
        BuyError::StashFull => owned("Your stash is full."),
        BuyError::InvalidSlot => owned("That item is no longer available."),
    }
}

/// The theme of the visiting merchant in the roster, empty when the roster lacks it.
pub open spec fn visit_theme(catalog: Option<MerchantCatalog>, index: usize) -> Seq<char> {
    match catalog {
        Some(c) => if index < c.merchants@.len() {
            c.merchants@[index as int].theme@
        } else {
            ""@
        },
        None => ""@,
    }
}

pub open spec fn bought_notice_text(item: Item) -> Seq<char> {
    "Bought "@ + item.name@ + " for $"@ + dec(item.value as nat) + "."@
}

/// After a purchase the selection moves to the next slot, wrapping to the first; with
/// nothing left it stays where it was.
pub open spec fn selection_after_buy(bought: usize, stock_len: int, requested: usize) -> usize {
    if stock_len == 0 {
        requested
    } else if bought + 1 < stock_len {
        (bought + 1) as usize
    } else {
        0
    }
}

/// The shop as the player sees it after a click, and the activity-log line of a purchase.
pub struct ShopResponse {
    pub message: ComponentsV2Message,
    pub activity: Option<ChudMsg>,
}

pub open spec fn left_message(m: ComponentsV2Message) -> bool {
    &&& m.flags == 0x8040
    &&& describe_all(m.components@) == seq![ComponentDesc::Text("The merchant has already left."@)]
}

/// One shop interaction for a player (as loaded, if at all): opening or reselecting
/// (`buy_slot` None), or buying the item in `buy_slot`. Without a chud the player is told
/// so; without a visit, that the merchant left. A purchase goes through `buy`; its notice
/// (what was bought, or why not) ends the refreshed shop, and a completed one yields the
/// `chud_buys_item` log line with the chud's first name, the item and its price.
pub fn prepare_shop_response(
    player: &mut Option<Player>,
    merchant: &mut MerchantState,
    registry: &ItemRegistry,
    selected_slot: usize,
    buy_slot: Option<usize>,
) -> (r: ShopResponse)
    ensures
        r.message.flags == 0x8040,
        match *old(player) {
            Some(p) if p.chud is Some => match old(merchant).visit {
                None => {
                    &&& left_message(r.message)
                    &&& r.activity is None
                    &&& *final(player) == *old(player)
                    &&& *final(merchant) == *old(merchant)
                },
                Some(v) => match buy_slot {
                    None => {
                        &&& r.activity is None
                        &&& *final(player) == *old(player)
                        &&& *final(merchant) == *old(merchant)
                        &&& describe_all(r.message.components@) == shop_screen(
                            v,
                            visit_theme(old(merchant).catalog, v.merchant_index),
                            registry.items@,
                            p.cash,
                            selected_slot,
                            None,
                        )
                    },
                    Some(slot) => *final(player) matches Some(q) && final(merchant).visit matches Some(w) && {
                        &&& buy_applied(*old(merchant), *final(merchant), p, q, slot, *registry)
                        &&& match buy_result(*old(merchant), slot, p, *registry) {
                            Err(e) => {
                                &&& r.activity is None
                                &&& describe_all(r.message.components@) == shop_screen(
                                    w,
                                    visit_theme(final(merchant).catalog, w.merchant_index),
                                    registry.items@,
                                    q.cash,
                                    selected_slot,
                                    Some(buy_notice_text(e)),
                                )
                            },
                            Ok(item) => {
                                &&& r.activity matches Some(a) && a.key == "chud_buys_item"
                                    && a.args_view() == seq![
                                    first_word(p.chud.unwrap().name@),
                                    item.name@,
                                    dec(item.value as nat),
                                ]
                                &&& describe_all(r.message.components@) == shop_screen(
                                    w,
                                    visit_theme(final(merchant).catalog, w.merchant_index),
                                    registry.items@,
                                    q.cash,
                                    selection_after_buy(slot, w.stock@.len() as int, selected_slot),
                                    Some(bought_notice_text(item)),
                                )
                            },
                        }
                    },
                },
            },
            _ => {
                &&& describe_all(r.message.components@) == seq![ComponentDesc::Text("You don't have a chud."@)]
                &&& r.activity is None
                &&& *final(player) == *old(player)
                &&& *final(merchant) == *old(merchant)
            },
        },
{
    let with_chud = match player {
        Some(p) => p.has_chud(),
        None => false,
    };
    if !with_chud {
        return ShopResponse { message: no_chud_message(), activity: None };
    }
    if merchant.visit.is_none() {
        let mut v: Vec<Component> = Vec::new();
        v.push(Component::Text(TextDisplay::new(owned("The merchant has already left."))));
        assert(describe_all(v@) =~= seq![ComponentDesc::Text("The merchant has already left."@)]);
        return ShopResponse { message: ComponentsV2Message::ephemeral(v), activity: None };
    }
    let mut p = player.take().unwrap();
    let mut notice: Option<String> = None;
    let mut activity: Option<ChudMsg> = None;
    let mut selected = selected_slot;
    match buy_slot {
        None => {},
        Some(slot) => {
            let first_name = first_word_of(p.chud_ref().name.as_str());
            match merchant.buy(slot, &mut p, registry) {
                Ok(item) => {
                    let mut n = owned("Bought ");
                    push_str(&mut n, item.name.as_str());
                    push_str(&mut n, " for $");
                    push_dec(&mut n, item.value as u64);
                    push_str(&mut n, ".");
                    notice = Some(n);
                    activity = Some(chud_msg_3("chud_buys_item", first_name, item.name.clone(), dec_string(item.value as u64)));
                    let stock_len = match &merchant.visit {
                        Some(w) => w.stock.len(),
                        None => 0,
                    };
                    selected = if stock_len == 0 {
                        selected_slot
                    } else if slot < stock_len - 1 {
                        slot + 1
                    } else {
                        0
                    };
                },
                Err(e) => {
                    notice = Some(buy_notice(e));
                },
            }
        },
    }
    let message = match &merchant.visit {
        Some(w) => {
            let theme: &str = match &merchant.catalog {
                Some(c) => if w.merchant_index < c.merchants.len() {
                    c.merchants[w.merchant_index].theme.as_str()
                } else {
                    ""
                },
                None => "",
            };
            let n: Option<&str> = match &notice {
                Some(t) => Some(t.as_str()),
                None => None,
            };
            build_shop_message(w, theme, registry, &p, selected, n)
        },
        None => {
            proof {
                assert(false);
            }
            no_chud_message()
        },
    };
    *player = Some(p);
    ShopResponse { message, activity }
}

} // verus!
