use chudguild::game::generation::generators::{classify_reply, reply_step, ParseFailure, ReplyStep};
use chudguild::game::generation::yaml_value::{normalize_yaml_string_values, YamlValue};
use chudguild::game::domain::board::{Board, BoardQuest, QuestState};
use chudguild::game::domain::episode_stats::EpisodeStats;
use chudguild::game::domain::hospital::Hospital;
use chudguild::game::domain::item::{parse_stat_floor, parse_stat_modifier, Item, ItemStats, ItemType};
use chudguild::game::domain::player::create_chud;
use chudguild::game::domain::quest::TrialStats;
use chudguild::game::domain::quest_result::CompletedTrial;
use chudguild::game::engine::{assign_chud_to_quest, buy_merchant_item, equip_item, EngineError};
use chudguild::game::generation::quest_generator::{GeneratedQuest, QuestData};
use chudguild::game::mechanics::item_builder::{
    complete_item_stats, format_stat_bonus, has_positive_stat, item_stat_cap, item_type_for_roll, neutral_stat_text, roll_item_type, roll_subtype,
    subtype_for_pick,
};
use chudguild::game::mechanics::quest_builder::StatChoice;
use chudguild::game::mechanics::simulation::{choose_stat, stat_pool_for};
use chudguild::game::merchant::{MerchantCatalog, MerchantDefinition, MerchantState, MerchantTickEvent, MerchantVisit};
use chudguild::game::persistence::item_registry::ItemRegistry;

fn roster_state() -> MerchantState {
    MerchantState {
        catalog: Some(MerchantCatalog {
            merchants: vec![MerchantDefinition {
                name: "Moe".to_string(),
                theme: "goods".to_string(),
                stock_pool: vec![1, 2],
            }],
        }),
        visit: None,
        spawn_next_tick: false,
        spawn_merchant_name: None,
    }
}

fn trial(margin: i16) -> CompletedTrial {
    CompletedTrial {
        situation: "s".to_string(),
        stat_used: StatChoice::Strength,
        player_roll: 5,
        trial_roll: (5 - margin) as u8,
        margin,
        passed: margin >= 0,
        chose_optimal: true,
        narrative: String::new(),
    }
}

fn job(id: u32, active: Option<u64>) -> BoardQuest {
    BoardQuest {
        id,
        quest_data: QuestData {
            quest_description: "d".to_string(),
            quest_goal: None,
            quest_difficulty: 2,
            trials: vec![TrialStats { strength: 1, smarts: 0, stealth: 0 }; 3],
        },
        generated: GeneratedQuest {
            quest_title: "Rats".to_string(),
            quest_giver: "g".to_string(),
            description: "x".to_string(),
            trials: vec!["a".to_string(); 3],
            quest_goal: "goal".to_string(),
            reward: 1,
        },
        states: match active {
            Some(u) => vec![QuestState::Active { discord_user_id: u, ticks_remaining: 1 }],
            None => vec![],
        },
        story_index: None,
        timeout: 5,
    }
}

#[test]
fn merchant_visit_by_chance_roll() {
    let mut m = roster_state();
    assert_eq!(m.advance_tick_rolled(false, false), MerchantTickEvent::Idle);
    assert!(m.visit.is_none());
    assert_eq!(m.advance_tick_rolled(false, true), MerchantTickEvent::Spawned);
    assert_eq!(m.visit.as_ref().unwrap().merchant_name, "Moe");
    let mut empty = MerchantState::default();
    assert_eq!(empty.advance_tick_rolled(false, true), MerchantTickEvent::Idle);
    let mut forced = roster_state();
    assert_eq!(forced.advance_tick_rolled(true, false), MerchantTickEvent::Spawned);
}

#[test]
fn worst_roll_record_follows_the_trials() {
    let mut st = EpisodeStats::default();
    st.consider_worst_rolls(1, "Ann", &vec![trial(2), trial(-3), trial(0)]);
    let w = st.records.worst_roll.as_ref().unwrap();
    assert_eq!(w.margin, -3);
    assert_eq!(w.chuds.len(), 1);
    assert_eq!((w.chuds[0].discord_user_id, w.chuds[0].chud_name.as_str()), (1, "Ann"));
    st.consider_worst_rolls(2, "Bob", &vec![trial(-3)]);
    let w = st.records.worst_roll.as_ref().unwrap();
    assert_eq!(w.chuds.len(), 2);
    assert_eq!(w.chuds[1].chud_name, "Bob");
    st.consider_worst_rolls(3, "Cid", &vec![trial(-1)]);
    assert_eq!(st.records.worst_roll.as_ref().unwrap().chuds.len(), 2);
    st.consider_worst_rolls(3, "Cid", &vec![trial(-4)]);
    let w = st.records.worst_roll.as_ref().unwrap();
    assert_eq!(w.margin, -4);
    assert_eq!(w.chuds.len(), 1);
    assert_eq!(w.chuds[0].chud_name, "Cid");
    st.consider_worst_rolls(4, "Dee", &vec![]);
    assert_eq!(st.records.worst_roll.as_ref().unwrap().chuds[0].chud_name, "Cid");
}

#[test]
fn assigning_leaves_the_rest_of_the_board() {
    let mut board = Board::default();
    board.quests.push(job(1, Some(9)));
    board.quests.push(job(2, None));
    board.next_id = 7;
    board.story_next_index = 1;
    let hospital = Hospital::default();
    let ann = create_chud(1, "Ann".to_string(), "a".to_string());
    let r = assign_chud_to_quest(&mut board, &hospital, Some(ann.clone()), 1, 1, None, 4);
    assert_eq!(r.err(), Some(EngineError::QuestUnavailable));
    assert_eq!(board.quests[0].states.len(), 1);
    let info = assign_chud_to_quest(&mut board, &hospital, Some(ann), 1, 2, None, 4).unwrap();
    assert_eq!(info.quest_title, "Rats");
    assert_eq!(
        board.quests[1].states,
        vec![QuestState::Active { discord_user_id: 1, ticks_remaining: 3 }]
    );
    assert_eq!(board.quests[1].timeout, 4);
    assert_eq!((board.next_id, board.story_next_index), (7, 1));
}

#[test]
fn stat_text_is_floor_or_modifier() {
    assert_eq!(parse_stat_floor("3"), 3);
    assert_eq!(parse_stat_modifier("3"), 0);
    assert_eq!(parse_stat_floor("+2"), 0);
    assert_eq!(parse_stat_modifier("+2"), 2);
    assert_eq!(parse_stat_modifier("-1"), -1);
    assert_eq!(parse_stat_floor("-1"), 0);
    assert_eq!(parse_stat_floor(" 255 "), 255);
}

#[test]
fn stat_choice_pool() {
    let reg = ItemRegistry::default();
    let mut p = create_chud(1, "Ann".to_string(), "a".to_string());
    p.chud.as_mut().unwrap().smarts = 4;
    // strength 1 vs 1 (margin 0), smarts 4 vs 2 (margin 2), stealth not allowed.
    let stats = TrialStats { strength: 1, smarts: 2, stealth: 0 };
    assert_eq!(stat_pool_for(&stats, &p, &reg, &vec![false, false]), vec![StatChoice::Strength, StatChoice::Smarts]);
    assert_eq!(stat_pool_for(&stats, &p, &reg, &vec![true, true]), vec![StatChoice::Smarts]);
    assert_eq!(choose_stat(&stats, &p, &reg, &vec![true, false]), StatChoice::Smarts);
    let only = TrialStats { strength: 0, smarts: 0, stealth: 3 };
    assert_eq!(choose_stat(&only, &p, &reg, &vec![true]), StatChoice::Stealth);
}

#[test]
fn item_rolls() {
    assert_eq!(item_type_for_roll(0), ItemType::Gear);
    assert_eq!(item_type_for_roll(1), ItemType::Weapon);
    assert_eq!(item_type_for_roll(2), ItemType::Misc);
    let t = roll_item_type();
    let sub = roll_subtype(t);
    match t {
        ItemType::Weapon => assert_eq!(sub, ""),
        ItemType::Misc => assert_eq!(sub, "trinket"),
        ItemType::Gear => assert!(["helmet", "chest", "legs", "feet", "hands"].contains(&sub.as_str())),
    }
    assert_eq!(subtype_for_pick(ItemType::Gear, 3), "feet");
    assert_eq!(item_stat_cap(1), 1);
    assert_eq!(item_stat_cap(7), 3);
    assert_eq!(format_stat_bonus(true, true, 3), "+3");
    assert_eq!(format_stat_bonus(true, false, 2), "-2");
    assert_eq!(format_stat_bonus(false, true, 4), "4");
    assert_eq!(neutral_stat_text(), "-");
}

#[test]
fn completed_stats_always_help() {
    let neutral = ItemStats { strength: "-".to_string(), smarts: "-".to_string(), stealth: "-2".to_string() };
    assert!(!has_positive_stat(&neutral));
    let done = complete_item_stats(neutral.clone(), "+1".to_string(), 1);
    assert_eq!(done.smarts, "+1");
    assert_eq!(done.strength, "-");
    assert!(has_positive_stat(&done));
    let done = complete_item_stats(neutral, "3".to_string(), 7);
    assert_eq!(done.stealth, "3");
    let good = ItemStats { strength: "2".to_string(), smarts: "-".to_string(), stealth: "-".to_string() };
    assert!(has_positive_stat(&good));
    assert_eq!(complete_item_stats(good, "+5".to_string(), 0).strength, "2");
}

#[test]
fn equipping_by_kind() {
    let mut p = create_chud(1, "Ann".to_string(), "a".to_string());
    let trinket = |id: u32| Item {
        id,
        name: "t".to_string(),
        item_type: ItemType::Misc,
        subtype: "trinket".to_string(),
        stats: ItemStats { strength: "-".to_string(), smarts: "-".to_string(), stealth: "-".to_string() },
        description: String::new(),
        trigger: None,
        effect: None,
        rarity: "common".to_string(),
        value: 1,
    };
    assert_eq!(equip_item(&mut p, trinket(4)), None);
    assert_eq!(equip_item(&mut p, trinket(5)), None);
    assert_eq!(equip_item(&mut p, trinket(6)), Some(4));
    assert_eq!(p.chud.as_ref().unwrap().equipment.misc, [Some(6), Some(5)]);
}

#[test]
fn buying_takes_the_item_off_the_table() {
    let mut reg = ItemRegistry::default();
    let hat = reg.add_item(Item {
        id: 0,
        name: "Hat".to_string(),
        item_type: ItemType::Gear,
        subtype: "helmet".to_string(),
        stats: ItemStats { strength: "1".to_string(), smarts: "-".to_string(), stealth: "-".to_string() },
        description: String::new(),
        trigger: None,
        effect: None,
        rarity: "common".to_string(),
        value: 30,
    });
    let mut m = roster_state();
    m.catalog.as_mut().unwrap().merchants[0].stock_pool = vec![hat];
    m.visit = Some(MerchantVisit { merchant_index: 0, merchant_name: "Moe".to_string(), ticks_remaining: 2, stock: vec![hat] });
    let mut p = create_chud(1, "Ann".to_string(), "a".to_string());
    p.cash = 40;
    let got = buy_merchant_item(&mut m, &mut p, &mut reg, 0).unwrap();
    assert_eq!(got.name, "Hat");
    assert_eq!(p.cash, 10);
    let visit = m.visit.as_ref().unwrap();
    assert!(visit.stock.is_empty());
    assert_eq!(visit.merchant_name, "Moe");
    assert!(m.catalog.as_ref().unwrap().merchants[0].stock_pool.is_empty());
}

#[test]
fn yaml_strings_normalized() {
    let mut v = YamlValue::List(vec![
        YamlValue::Str("  a \n b  ".to_string()),
        YamlValue::Mapping(vec![YamlValue::Str("x\ty".to_string()), YamlValue::Other]),
    ]);
    normalize_yaml_string_values(&mut v);
    match v {
        YamlValue::List(items) => {
            assert!(matches!(&items[0], YamlValue::Str(s) if s == "a b"));
            match &items[1] {
                YamlValue::Mapping(m) => {
                    assert!(matches!(&m[0], YamlValue::Str(s) if s == "x y"));
                    assert!(matches!(m[1], YamlValue::Other));
                }
                _ => panic!("expected a mapping"),
            }
        }
        _ => panic!("expected a list"),
    }
}

#[test]
fn replies_classified() {
    assert!(classify_reply("trials:\n  - a\n  - b\n", Some(("trials", 2))).is_none());
    match classify_reply("trials:\n  - a\n", Some(("trials", 2))) {
        Some(ParseFailure::WrongCount { list_key, expected, actual }) => {
            assert_eq!((list_key.as_str(), expected, actual), ("trials", 2, Some(1)));
        }
        _ => panic!("expected a wrong count"),
    }
    match classify_reply("name: x\n", Some(("items", 3))) {
        Some(ParseFailure::WrongCount { actual, .. }) => assert_eq!(actual, None),
        _ => panic!("expected a missing list"),
    }
    assert!(matches!(classify_reply("a: [unclosed", None), Some(ParseFailure::MalformedYaml(_))));
    assert!(classify_reply("name: x\n", None).is_none());
    let mut retries = 0;
    assert!(matches!(reply_step(&mut retries, "name: x\n", None), ReplyStep::Read));
    assert!(matches!(reply_step(&mut retries, "a: [unclosed", None), ReplyStep::Retry(_)));
    assert_eq!(retries, 1);
    retries = 5;
    match reply_step(&mut retries, "trials: []", Some(("trials", 1))) {
        ReplyStep::Fail(m) => assert_eq!(m, "LLM returned wrong trial count after 5 retries: expected 1, got Some(0)"),
        _ => panic!("expected to give up"),
    }
}
