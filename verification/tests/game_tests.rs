use chudguild::discord::guild_hall::{
    assign_job_slots, first_empty_slot, format_chudlerboard, sole_leader, sole_richest, sync_action,
    LeaderStat, SyncAction,
};
use chudguild::discord::simulation::{begin_scheduled_start, start_delay_secs};
use chudguild::discord::tick::{level_up_line, return_message_key};
use chudguild::game::domain::board::{Board, BoardQuest};
use chudguild::game::domain::item::{Item, ItemStats, ItemType};
use chudguild::game::domain::player::{create_chud, LevelUp, Player};
use chudguild::game::domain::quest::TrialStats;
use chudguild::game::domain::session::{GamePhase, GameSession};
use chudguild::game::domain::starting_benefits::StartingBenefits;
use chudguild::game::engine::weighted_pick;
use chudguild::game::generation::merchant_generator::stock_merchant;
use chudguild::game::generation::quest_generator::{GeneratedQuest, QuestData};
use chudguild::game::merchant::{BuyError, MerchantCatalog, MerchantDefinition, MerchantState, MerchantVisit};
use chudguild::game::persistence::item_registry::ItemRegistry;
use chudguild::game::persistence::message_cache::JobSlot;
use chudguild::game::slots::{spin_for_player, SlotsError, SlotsSpin};

fn item(name: &str, value: u32) -> Item {
    Item {
        id: 0,
        name: name.to_string(),
        item_type: ItemType::Gear,
        subtype: "helmet".to_string(),
        stats: ItemStats { strength: "+1".to_string(), smarts: "-".to_string(), stealth: "-".to_string() },
        description: "a thing".to_string(),
        trigger: None,
        effect: None,
        rarity: "common".to_string(),
        value,
    }
}

fn quest(id: u32, title: &str) -> BoardQuest {
    BoardQuest {
        id,
        quest_data: QuestData {
            quest_description: "d".to_string(),
            quest_goal: None,
            quest_difficulty: 3,
            trials: vec![TrialStats { strength: 1, smarts: 0, stealth: 0 }],
        },
        generated: GeneratedQuest {
            quest_title: title.to_string(),
            quest_giver: "Giver".to_string(),
            description: "Help".to_string(),
            trials: vec!["trial".to_string()],
            quest_goal: "goal".to_string(),
            reward: 10,
        },
        states: vec![],
        story_index: None,
        timeout: 5,
    }
}

fn slot(message_id: Option<u64>, job_id: Option<u32>) -> JobSlot {
    JobSlot { message_id, content: String::new(), job_id }
}

#[test]
fn weighted_pick_favours_oldest() {
    let picks: Vec<usize> = (0..6).map(|p| weighted_pick(3, p)).collect();
    assert_eq!(picks, vec![0, 0, 0, 1, 1, 2]);
    assert_eq!(weighted_pick(1, 0), 0);
}

#[test]
fn starting_benefits_add_then_take() {
    let mut b = StartingBenefits::default();
    b.add(7, 30);
    b.add(7, 12);
    b.add(8, 5);
    b.add(9, 0);
    assert_eq!(b.take(7), 42);
    assert_eq!(b.take(7), 0);
    assert_eq!(b.take(9), 0);
    assert_eq!(b.take(8), 5);
}

#[test]
fn registry_add_then_remove_gives_item_back() {
    let mut reg = ItemRegistry::default();
    let id = reg.add_item(item("Hat", 3));
    assert_eq!(id, 0);
    let id2 = reg.add_item(item("Boot", 4));
    assert_eq!(id2, 1);
    assert_eq!(reg.get(1).map(|i| i.name.clone()), Some("Boot".to_string()));
    let removed = reg.remove(0).unwrap();
    assert_eq!(removed.name, "Hat");
    assert_eq!(removed.id, 0);
    assert!(reg.get(0).is_none());
    assert_eq!(reg.next_id, 2);
}

#[test]
fn merchant_stock_registers_items_in_order() {
    let mut reg = ItemRegistry::default();
    reg.add_item(item("Old", 1));
    let def = stock_merchant(&mut reg, "Moe".to_string(), "junk".to_string(), vec![item("A", 2), item("B", 3)]);
    assert_eq!(def.stock_pool, vec![1, 2]);
    assert_eq!(reg.get(2).unwrap().name, "B");
    assert_eq!(reg.next_id, 3);
}

#[test]
fn buying_moves_item_and_cash() {
    let mut reg = ItemRegistry::default();
    let hat = reg.add_item(item("Hat", 30));
    let mut merchant = MerchantState {
        catalog: Some(MerchantCatalog {
            merchants: vec![MerchantDefinition { name: "Moe".to_string(), theme: "t".to_string(), stock_pool: vec![hat] }],
        }),
        visit: Some(MerchantVisit { merchant_index: 0, merchant_name: "Moe".to_string(), ticks_remaining: 3, stock: vec![hat] }),
        spawn_next_tick: false,
        spawn_merchant_name: None,
    };
    let mut poor = create_chud(1, "Grog".to_string(), "big".to_string());
    poor.cash = 10;
    assert_eq!(merchant.buy(0, &mut poor, &reg).unwrap_err(), BuyError::InsufficientFunds);
    assert_eq!(merchant.buy(4, &mut poor, &reg).unwrap_err(), BuyError::InvalidSlot);
    let mut rich = create_chud(2, "Zed".to_string(), "small".to_string());
    rich.cash = 50;
    let got = merchant.buy(0, &mut rich, &reg).unwrap();
    assert_eq!(got.name, "Hat");
    assert_eq!(rich.cash, 20);
    assert_eq!(rich.stash.items(), &[hat]);
    assert!(merchant.visit.as_ref().unwrap().stock.is_empty());
    assert!(merchant.catalog.as_ref().unwrap().merchants[0].stock_pool.is_empty());
    assert_eq!(merchant.buy(0, &mut rich, &reg).unwrap_err(), BuyError::InvalidSlot);
}

#[test]
fn slots_settlement() {
    let mut p = create_chud(1, "Grog".to_string(), "big".to_string());
    p.cash = 5;
    let spin = SlotsSpin { reels: vec!['a'; 5], pay_in: 10, payout: 40, wins: vec![] };
    assert!(matches!(spin_for_player(&mut p, 10, spin), Err(SlotsError::InsufficientFunds)));
    assert_eq!(p.cash, 5);
    p.cash = 15;
    let spin = SlotsSpin { reels: vec!['a'; 5], pay_in: 10, payout: 40, wins: vec![('a', 5, 40)] };
    let settled = spin_for_player(&mut p, 10, spin).unwrap();
    assert_eq!(p.cash, 45);
    assert_eq!(settled.mini_jackpot_symbol(), Some('a'));
    let lose = SlotsSpin { reels: vec!['b'; 5], pay_in: 10, payout: -3, wins: vec![('b', 3, 0)] };
    let l = spin_for_player(&mut p, 10, lose).unwrap();
    assert_eq!(p.cash, 35);
    assert_eq!(l.mini_jackpot_symbol(), None);
}

#[test]
fn job_slots_are_laid_out_for_the_board() {
    let mut board = Board::default();
    board.quests.push(quest(1, "A"));
    board.quests.push(quest(2, "B"));
    let mut slots = vec![slot(Some(100), Some(9)), slot(None, None)];
    let changed = assign_job_slots(&mut slots, &board, 3);
    assert!(changed);
    assert_eq!(slots.len(), 3);
    assert_eq!(slots[0].job_id, Some(1));
    assert_eq!(slots[0].message_id, Some(100));
    assert_eq!(slots[1].job_id, Some(2));
    assert_eq!(slots[2].job_id, None);
    let again = assign_job_slots(&mut slots, &board, 3);
    assert!(!again);
}

#[test]
fn first_empty_slot_prefers_posted() {
    let slots = vec![slot(None, None), slot(Some(5), None), slot(Some(6), Some(1))];
    assert_eq!(first_empty_slot(&slots), Some(1));
    let unposted = vec![slot(Some(6), Some(1)), slot(None, None)];
    assert_eq!(first_empty_slot(&unposted), Some(1));
    assert_eq!(first_empty_slot(&vec![slot(None, Some(2))]), None);
}

#[test]
fn sync_actions() {
    assert_eq!(sync_action(None, "", "k"), SyncAction::Post);
    assert_eq!(sync_action(Some(4), "k", "k"), SyncAction::Keep);
    assert_eq!(sync_action(Some(4), "j", "k"), SyncAction::Edit(4));
}

#[test]
fn chudlerboard_names_sole_leaders() {
    let mut a = create_chud(1, "Ann".to_string(), "a".to_string());
    let mut b = create_chud(2, "Bob".to_string(), "b".to_string());
    a.cash = 100;
    b.cash = 50;
    a.chud.as_mut().unwrap().strength = 5;
    b.chud.as_mut().unwrap().smarts = 4;
    let players = vec![a, b];
    assert_eq!(sole_richest(&players), Some(0));
    assert_eq!(sole_leader(&players, LeaderStat::Strength), Some("Ann".to_string()));
    assert_eq!(sole_leader(&players, LeaderStat::Stealth), None);
    let text = format_chudlerboard(&players, Some("ann#1"));
    assert_eq!(
        text,
        "```\n----- Chudlerboard -----\nann#1 is the richest chudlord\nAnn is the strongest\nBob is the smartest\n```"
    );
    assert_eq!(format_chudlerboard(&vec![], None), "");
    let mut c = create_chud(3, "Cid".to_string(), "c".to_string());
    let mut d = create_chud(4, "Dee".to_string(), "d".to_string());
    c.cash = 7;
    d.cash = 7;
    d.chud.as_mut().unwrap().stealth = 2;
    let tied = vec![c, d];
    assert_eq!(sole_richest(&tied), None);
    assert_eq!(format_chudlerboard(&tied, None), "```\n----- Chudlerboard -----\nDee is the sneakiest\n```");
}

#[test]
fn level_up_lines() {
    let l = LevelUp { str_up: true, smt_up: false, sth_up: true, exp_up: true };
    assert_eq!(level_up_line("Grog", &l), Some("Grog seems stronger, sneakier, and more experienced.".to_string()));
    assert_eq!(level_up_line("Grog", &LevelUp::default()), None);
    assert_eq!(return_message_key(true, true), Some("return_died"));
    assert_eq!(return_message_key(false, true), Some("return_hospitalized"));
    assert_eq!(return_message_key(false, false), None);
}

#[test]
fn scheduled_start() {
    assert_eq!(start_delay_secs(100, 40), 60);
    assert_eq!(start_delay_secs(10, 40), 0);
    let mut s = GameSession::default();
    s.phase = GamePhase::Attract;
    assert!(begin_scheduled_start(&mut s));
    assert_eq!(s.phase, GamePhase::Playing);
    assert!(!begin_scheduled_start(&mut s));
}

#[test]
fn single_player_list() {
    let p: Vec<Player> = vec![create_chud(1, "Solo".to_string(), "x".to_string())];
    assert_eq!(sole_richest(&p), Some(0));
}
