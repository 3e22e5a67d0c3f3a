use chudguild::discord::buttons::{scout_quest, take_log_line, take_quest, ScoutOutcome, TakeOutcome};
use chudguild::discord::components_v2::{ActionRowChild, Component, ComponentsV2Message, ContainerChild};
use chudguild::discord::game_screens::{
    build_attract_message, build_complete_messages, build_rich_complete_message, living_chud_names,
};
use chudguild::discord::guild_hall::{
    build_job_board_header, build_job_slot, build_status_message, format_job_slot, job_slot_accent,
    resolve_status_headers, StatusHeaderChoices, StatusSectionHeaders, ACCENT_INACTIVE, ACCENT_JOB_OPEN,
};
use chudguild::discord::ui::casino::{
    build_slots_message, parse_spin_custom_id, player_spin_response, validate_pay_in,
    ADMIN_SPIN_PREFIX, PLAYER_SPIN_PREFIX,
};
use chudguild::discord::ui::merchant::{
    build_merchant_channel_message, build_shop_message, buy_notice, format_shop_header,
    prepare_shop_response, resolve_merchant_visit_text,
};
use chudguild::game::domain::board::{Board, BoardQuest, QuestState};
use chudguild::game::domain::hospital::Hospital;
use chudguild::game::domain::item::{Item, ItemStats, ItemType};
use chudguild::game::domain::player::create_chud;
use chudguild::game::domain::quest::TrialStats;
use chudguild::game::generation::quest_generator::{GeneratedQuest, QuestData};
use chudguild::game::guild_status::compute_guild_hall_status;
use chudguild::game::merchant::{BuyError, MerchantCatalog, MerchantDefinition, MerchantState, MerchantVisit};
use chudguild::game::persistence::item_registry::ItemRegistry;
use chudguild::game::persistence::message_cache::MessageCache;
use chudguild::game::slots::SlotsSpin;

fn texts(m: &ComponentsV2Message) -> Vec<String> {
    m.components
        .iter()
        .filter_map(|c| match c {
            Component::Text(t) => Some(t.content.clone()),
            _ => None,
        })
        .collect()
}

fn item(name: &str, value: u32) -> Item {
    Item {
        id: 0,
        name: name.to_string(),
        item_type: ItemType::Weapon,
        subtype: String::new(),
        stats: ItemStats { strength: "+2".to_string(), smarts: "-".to_string(), stealth: "-".to_string() },
        description: "sharp".to_string(),
        trigger: None,
        effect: None,
        rarity: "rare".to_string(),
        value,
    }
}

fn quest(id: u32, title: &str, active: Option<u64>) -> BoardQuest {
    BoardQuest {
        id,
        quest_data: QuestData {
            quest_description: "d".to_string(),
            quest_goal: None,
            quest_difficulty: 2,
            trials: vec![TrialStats { strength: 1, smarts: 1, stealth: 0 }, TrialStats { strength: 0, smarts: 2, stealth: 1 }],
        },
        generated: GeneratedQuest {
            quest_title: title.to_string(),
            quest_giver: "Old Man".to_string(),
            description: "Line one\nLine two".to_string(),
            trials: vec!["t1".to_string(), "t2".to_string()],
            quest_goal: "goal".to_string(),
            reward: 25,
        },
        states: match active {
            Some(uid) => vec![QuestState::Active { discord_user_id: uid, ticks_remaining: 2 }],
            None => vec![],
        },
        story_index: None,
        timeout: 5,
    }
}

fn shop_state(stock: Vec<u32>) -> MerchantState {
    MerchantState {
        catalog: Some(MerchantCatalog {
            merchants: vec![MerchantDefinition {
                name: "Moe".to_string(),
                theme: "  dusty \n goods ".to_string(),
                stock_pool: stock.clone(),
            }],
        }),
        visit: Some(MerchantVisit { merchant_index: 0, merchant_name: "Moe".to_string(), ticks_remaining: 2, stock }),
        spawn_next_tick: false,
        spawn_merchant_name: None,
    }
}

#[test]
fn shop_header_collapses_theme() {
    assert_eq!(format_shop_header("Moe", "  dusty \n goods "), "**Moe**\n-# dusty goods");
    assert_eq!(format_shop_header("Moe", "  "), "**Moe**");
}

#[test]
fn buy_notices() {
    assert_eq!(buy_notice(BuyError::SoldOut), "Sorry, someone snagged that.");
    assert_eq!(buy_notice(BuyError::InsufficientFunds), "You don't have enough cash.");
    assert_eq!(buy_notice(BuyError::StashFull), "Your stash is full.");
    assert_eq!(buy_notice(BuyError::InvalidSlot), "That item is no longer available.");
}

#[test]
fn shop_message_lists_known_items_and_selects() {
    let mut reg = ItemRegistry::default();
    let a = reg.add_item(item("Axe", 12));
    let b = reg.add_item(item("Bow", 20));
    let state = shop_state(vec![a, 99, b]);
    let mut p = create_chud(1, "Grog".to_string(), "x".to_string());
    p.cash = 50;
    let m = build_shop_message(state.visit.as_ref().unwrap(), "dusty goods", &reg, &p, 1, Some("hi"));
    let t = texts(&m);
    assert_eq!(t[0], "**Moe**\n-# dusty goods");
    assert_eq!(t[1], "You have $50 on hand");
    assert!(t[2].contains("Axe"));
    assert!(t[3].contains("Bow"));
    assert_eq!(t.last().unwrap(), "```hi```");
    let mut saw_select = false;
    let mut saw_buy = false;
    for c in &m.components {
        if let Component::ActionRow(row) = c {
            for child in &row.components {
                match child {
                    ActionRowChild::StringSelect(s) => {
                        saw_select = true;
                        assert_eq!(s.options.len(), 2);
                        assert_eq!(s.options[0].value, "0");
                        assert_eq!(s.options[0].default, Some(true));
                        assert_eq!(s.options[1].value, "2");
                    }
                    ActionRowChild::Button(btn) => {
                        saw_buy = true;
                        assert_eq!(btn.custom_id, "shop_buy:0");
                        assert_eq!(btn.label, "Buy $12");
                    }
                }
            }
        }
    }
    assert!(saw_select && saw_buy);
}

#[test]
fn sold_out_shop() {
    let reg = ItemRegistry::default();
    let state = shop_state(vec![5]);
    let p = create_chud(1, "Grog".to_string(), "x".to_string());
    let m = build_shop_message(state.visit.as_ref().unwrap(), "", &reg, &p, 0, None);
    assert_eq!(texts(&m), vec!["**Moe**", "You have $0 on hand", "_The merchant is sold out._"]);
}

#[test]
fn shop_purchase_flow() {
    let mut reg = ItemRegistry::default();
    let a = reg.add_item(item("Axe", 12));
    let b = reg.add_item(item("Bow", 20));
    let mut state = shop_state(vec![a, b]);
    let mut p = create_chud(1, "Grog Smash".to_string(), "x".to_string());
    p.cash = 15;
    let mut who = Some(p);
    let r = prepare_shop_response(&mut who, &mut state, &reg, 0, Some(0));
    let a_log = r.activity.unwrap();
    assert_eq!(a_log.key, "chud_buys_item");
    assert_eq!(a_log.args, vec!["Grog", "Axe", "12"]);
    assert_eq!(who.as_ref().unwrap().cash, 3);
    assert_eq!(texts(&r.message).last().unwrap(), "```Bought Axe for $12.```");
    let r2 = prepare_shop_response(&mut who, &mut state, &reg, 0, Some(0));
    assert!(r2.activity.is_none());
    assert_eq!(texts(&r2.message).last().unwrap(), "```You don't have enough cash.```");

    let mut nobody = None;
    let r3 = prepare_shop_response(&mut nobody, &mut state, &reg, 0, None);
    assert_eq!(texts(&r3.message), vec!["You don't have a chud."]);

    let mut gone = MerchantState::default();
    let mut who2 = Some(create_chud(2, "Zed".to_string(), "y".to_string()));
    let r4 = prepare_shop_response(&mut who2, &mut gone, &reg, 0, None);
    assert_eq!(texts(&r4.message), vec!["The merchant has already left."]);
}

#[test]
fn merchant_visit_announcement_is_cached() {
    let state = shop_state(vec![]);
    let mut cache = MessageCache::default();
    let (t, dirty) = resolve_merchant_visit_text(&state, &mut cache, "Moe is here!".to_string());
    assert_eq!(t.as_deref(), Some("Moe is here!"));
    assert!(dirty);
    let (t2, dirty2) = resolve_merchant_visit_text(&state, &mut cache, "other line".to_string());
    assert_eq!(t2.as_deref(), Some("Moe is here!"));
    assert!(!dirty2);
    let empty = MerchantState::default();
    let (t3, dirty3) = resolve_merchant_visit_text(&empty, &mut cache, "x".to_string());
    assert!(t3.is_none());
    assert!(dirty3);
    assert!(cache.merchant_visit_identity.is_none());
}

#[test]
fn merchant_channel_message_shapes() {
    let spacer = build_merchant_channel_message(None);
    assert_eq!(texts(&spacer), vec!["\u{200B}\n\u{200B}"]);
    let boxed = build_merchant_channel_message(Some("Moe arrives"));
    match &boxed.components[0] {
        Component::Container(k) => {
            assert_eq!(k.components.len(), 2);
            match &k.components[1] {
                ContainerChild::ActionRow(row) => match &row.components[0] {
                    ActionRowChild::Button(b) => assert_eq!(b.custom_id, "merchant:shop"),
                    _ => panic!("expected a button"),
                },
                _ => panic!("expected a row"),
            }
        }
        _ => panic!("expected a box"),
    }
}

#[test]
fn slots_validation_and_ids() {
    assert_eq!(validate_pay_in(0), Err("pay-in must be at least $1"));
    assert_eq!(validate_pay_in(1001), Err("pay-in must be at most $1000"));
    assert_eq!(validate_pay_in(10), Ok(()));
    assert_eq!(parse_spin_custom_id("slots:spin:25"), Some((false, 25)));
    assert_eq!(parse_spin_custom_id("admin_slots:spin:7"), Some((true, 7)));
    assert_eq!(parse_spin_custom_id("admin_slots:spin7"), None);
    assert_eq!(parse_spin_custom_id("shop_buy:1"), None);
    assert_eq!(PLAYER_SPIN_PREFIX, "slots:spin");
    assert_eq!(ADMIN_SPIN_PREFIX, "admin_slots:spin");
}

#[test]
fn slots_screen_texts() {
    let row = vec![('🍋', 40), ('💎', 1200)];
    let m = build_slots_message(10, Some(90), None, None, PLAYER_SPIN_PREFIX, &row);
    assert_eq!(
        texts(&m),
        vec!["**Slots**", "-# 🍋 $40  💎 $1200", "| ? ? ? ? ? |", "You have $90 on hand"]
    );
    let spin = SlotsSpin { reels: vec!['🍋'; 5], pay_in: 10, payout: 40, wins: vec![('🍋', 5, 40)] };
    let m2 = build_slots_message(10, Some(120), Some(&spin), None, PLAYER_SPIN_PREFIX, &row);
    let t = texts(&m2);
    assert_eq!(t[2], "| 🍋 🍋 🍋 🍋 🍋 |");
    assert_eq!(t[3], "**+$30** (won $40) \u{b7} $120 on hand\n5x 🍋 \u{2192} $40");
    let lose = SlotsSpin { reels: vec!['a'; 5], pay_in: 10, payout: 0, wins: vec![] };
    let m3 = build_slots_message(10, None, Some(&lose), None, ADMIN_SPIN_PREFIX, &row);
    assert_eq!(texts(&m3)[3], "**-$10** (no win)");
}

#[test]
fn player_spin_flow() {
    let row = vec![('a', 1)];
    let mut p = create_chud(1, "Lucky Lou".to_string(), "x".to_string());
    p.cash = 20;
    let win = SlotsSpin { reels: vec!['a'; 5], pay_in: 10, payout: 50, wins: vec![('a', 5, 50)] };
    let r = player_spin_response(&mut p, 10, Some(win), &row);
    assert_eq!(p.cash, 60);
    let log = r.activity.unwrap();
    assert_eq!(log.key, "chud_jackpot_slots");
    assert_eq!(log.args, vec!["Lucky", "50"]);
    let r2 = player_spin_response(&mut p, 5000, None, &row);
    assert_eq!(texts(&r2.message).last().unwrap(), "```pay-in must be at most $1000```");
    assert_eq!(p.cash, 60);
    let r3 = player_spin_response(&mut p, 100, None, &row);
    assert_eq!(texts(&r3.message).last().unwrap(), "```You don't have enough cash.```");
}

#[test]
fn job_slot_rendering() {
    let open = quest(4, "Rats", None);
    assert_eq!(format_job_slot(Some(&open)), "**Rats** - *Old Man* | $25\nLine one\nLine two");
    let taken = quest(5, "Bats", Some(9));
    assert_eq!(format_job_slot(Some(&taken)), "-# **Bats** - *Old Man* | $25\n-# Line one\n-# Line two");
    assert_eq!(format_job_slot(None), "*Nothing posted here*");
    assert_eq!(job_slot_accent(&open), ACCENT_JOB_OPEN);
    assert_eq!(job_slot_accent(&taken), ACCENT_INACTIVE);
    let m = build_job_slot(Some(&open));
    match &m.components[0] {
        Component::Container(k) => match &k.components[1] {
            ContainerChild::ActionRow(row) => {
                let ids: Vec<String> = row
                    .components
                    .iter()
                    .map(|c| match c {
                        ActionRowChild::Button(b) => b.custom_id.clone(),
                        _ => String::new(),
                    })
                    .collect();
                assert_eq!(ids, vec!["take:4", "scout:4"]);
            }
            _ => panic!("expected buttons"),
        },
        _ => panic!("expected a box"),
    }
    let h = build_job_board_header(2, 5);
    assert!(texts(&h)[0].contains("**CHUD GUILD JOB BOARD** *2/5 posted*"));
}

#[test]
fn status_headers_and_message() {
    let board = Board::default();
    let hospital = Hospital::default();
    let players = vec![create_chud(1, "Ann".to_string(), "a".to_string())];
    let status = compute_guild_hall_status(&board, &hospital, &players);
    let mut cache = MessageCache::default();
    let fresh = StatusHeaderChoices {
        idle: "Loafing".to_string(),
        all_busy: "Busy".to_string(),
        no_chuds: "Empty".to_string(),
        hospital: "Sick".to_string(),
    };
    let (headers, dirty) = resolve_status_headers(&status, &mut cache, &fresh);
    assert!(dirty);
    assert_eq!(headers.idle.as_deref(), Some("Loafing"));
    assert!(headers.all_busy.is_none());
    let m = build_status_message(&status, &headers);
    match &m.components[0] {
        Component::Container(k) => match &k.components[0] {
            ContainerChild::Text(t) => assert_eq!(t.content, "*Loafing*\n-# Ann"),
            _ => panic!("expected text"),
        },
        _ => panic!("expected a box"),
    }
    let (_, dirty2) = resolve_status_headers(&status, &mut cache, &fresh);
    assert!(!dirty2);
    let none = StatusSectionHeaders { idle: None, all_busy: None, no_chuds: None, hospital: None };
    let empty_status = compute_guild_hall_status(&board, &hospital, &vec![]);
    let m2 = build_status_message(&empty_status, &StatusSectionHeaders { no_chuds: Some("Empty".to_string()), ..none });
    match &m2.components[0] {
        Component::Container(k) => match &k.components[0] {
            ContainerChild::Text(t) => assert_eq!(t.content, "*Empty*"),
            _ => panic!("expected text"),
        },
        _ => panic!("expected a box"),
    }
}

#[test]
fn take_and_scout() {
    let mut board = Board::default();
    board.quests.push(quest(1, "Rats", None));
    board.quests.push(quest(2, "Bats", None));
    let hospital = Hospital::default();
    let ann = create_chud(1, "Ann Lee".to_string(), "a".to_string());
    let players = vec![ann.clone()];
    match take_quest(&mut board, &hospital, ann.clone(), &players, 1, 1, 7) {
        TakeOutcome::Taken { info, .. } => {
            assert_eq!(info.quest_title, "Rats");
            let line = take_log_line(&info);
            assert_eq!(line.args, vec!["Ann", "Rats"]);
        }
        _ => panic!("expected the job to be taken"),
    }
    assert!(board.quests[0].has_active());
    match take_quest(&mut board, &hospital, ann.clone(), &players, 1, 2, 7) {
        TakeOutcome::Busy(_) => {}
        _ => panic!("expected busy"),
    }
    let bob = create_chud(2, "Bob".to_string(), "b".to_string());
    match take_quest(&mut board, &hospital, bob, &players, 2, 1, 7) {
        TakeOutcome::Unavailable => {}
        _ => panic!("expected unavailable"),
    }
    match scout_quest(&mut board, &hospital, &players, 2, 2, 7) {
        ScoutOutcome::Scouted { .. } => {}
        _ => panic!("expected scouting"),
    }
    match scout_quest(&mut board, &hospital, &players, 3, 42, 7) {
        ScoutOutcome::Unavailable => {}
        _ => panic!("expected unavailable"),
    }
}

#[test]
fn attract_and_complete_screens() {
    let names = living_chud_names(&vec![
        create_chud(1, "Zed".to_string(), "z".to_string()),
        create_chud(2, "Ann".to_string(), "a".to_string()),
    ]);
    assert_eq!(names, vec!["Ann", "Zed"]);
    let m = build_attract_message("Saga", Some(1700), &names, "Roster:");
    assert_eq!(
        texts(&m)[0],
        "# Saga\n<t:1700:R>\nType `/new_chud` to make your chud and join\nRoster:\n-# \u{2043} Ann, Zed"
    );
    let m0 = build_attract_message("Saga", None, &vec![], "Roster:");
    assert!(texts(&m0)[0].ends_with("`starting soon`\nType `/new_chud` to make your chud and join\nRoster:\n-# *nobody yet*"));
    let blocks = vec!["block a".to_string()];
    let rich = build_rich_complete_message("# Done", &blocks);
    assert_eq!(rich.components.len(), 3);
    let small = build_complete_messages("# Done", &blocks);
    assert_eq!(small.len(), 1);
    let big_blocks: Vec<String> = (0..3).map(|i| format!("{i}{}", "x".repeat(900))).collect();
    let big = build_complete_messages("# Done", &big_blocks);
    assert!(big.len() > 1);
    let joined: String = big.iter().map(|m| texts(m)[0].clone()).collect();
    assert!(joined.starts_with("# Done\n\n**The chuds**\n\n0x"));
}
