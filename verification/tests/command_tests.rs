use chudguild::discord::chud_commands::{format_chud_entry, pack_roster};
use chudguild::discord::components_v2::Component;
use chudguild::discord::game_screens::sort_players_by_folded_name;
use chudguild::discord::chud_commands::{graveyard_reply, need_a_chud_text, GraveyardReply};
use chudguild::game::domain::graveyard::{Graveyard, GraveyardEntry};
use chudguild::discord::tick::{begin_tick, merchant_tick};
use chudguild::game::merchant::{MerchantState, MerchantTickEvent};
use chudguild::discord::admin::{
    generation_idle, parse_i64, parse_start_time, scheduled_reply, schedule_start, spawn_merchant_reply,
};
use chudguild::discord::buttons::{
    days_remaining_text, heal_button_id, hospitalized_reply, parse_button_id, parse_heal_button, HospitalReply,
};
use chudguild::discord::chud_commands::{cash_reply, format_inspect_description, format_stash_line, job_reply, stats_reply};
use chudguild::discord::tick::{kill_result_of, pending_death_for, story_completion};
use chudguild::game::domain::board::{Board, BoardQuest, QuestState};
use chudguild::game::domain::item::{Item, ItemStats, ItemType};
use chudguild::game::domain::player::create_chud;
use chudguild::game::domain::quest::TrialStats;
use chudguild::game::domain::session::{GamePhase, GameSession};
use chudguild::game::domain::stash::Stash;
use chudguild::game::engine::{
    adventurer_description, failure_outcome_word, prepare_quest_result, trial_results, FailureKind, KillChudPending,
};
use chudguild::game::generation::item_generator::{item_prompt_tail, item_system_context};
use chudguild::game::generation::merchant_generator::{
    check_profile_count, merchant_profile_system_context, profiles_prompt_tail, stock_conversation_id,
    stock_prompt_tail,
};
use chudguild::game::generation::quest_generator::{
    job_conversation_ids, job_memory_reset_due, prompt_with_scaffold, result_memory_reset_due,
    results_conversation_id, results_scaffold, trial_scaffold, written_quest, GeneratedQuest, JobMemoryKind,
    QuestData,
};
use chudguild::game::mechanics::quest_builder::{PlayedQuest, StatChoice, TrialOutcome};
use chudguild::game::merchant::ForcedSpawnError;
use chudguild::game::persistence::item_registry::ItemRegistry;
use chudguild::text::replace_char;

fn axe() -> Item {
    Item {
        id: 0,
        name: "Axe".to_string(),
        item_type: ItemType::Weapon,
        subtype: String::new(),
        stats: ItemStats { strength: "+2".to_string(), smarts: "-".to_string(), stealth: "-".to_string() },
        description: "sharp".to_string(),
        trigger: None,
        effect: None,
        rarity: "rare".to_string(),
        value: 10,
    }
}

fn quest(id: u32, trials: Vec<TrialStats>, active: Option<u64>) -> BoardQuest {
    let n = trials.len();
    BoardQuest {
        id,
        quest_data: QuestData {
            quest_description: "d".to_string(),
            quest_goal: None,
            quest_difficulty: 2,
            trials,
        },
        generated: GeneratedQuest {
            quest_title: "Rat Trouble".to_string(),
            quest_giver: "Old Man".to_string(),
            description: "Rats everywhere.".to_string(),
            trials: (1..=n).map(|i| format!("situation {i}")).collect(),
            quest_goal: "goal".to_string(),
            reward: 25,
        },
        states: match active {
            Some(uid) => vec![QuestState::Active { discord_user_id: uid, ticks_remaining: 2 }],
            None => vec![],
        },
        story_index: None,
        timeout: 5,
    }
}

fn outcome(stat: StatChoice, player_roll: u8, trial_roll: u8) -> TrialOutcome {
    TrialOutcome {
        stats: TrialStats { strength: 1, smarts: 1, stealth: 1 },
        stat_used: stat,
        raw_roll: player_roll,
        roll_modifier: 0,
        floor_applied: false,
        player_roll,
        trial_roll,
        player_stat: 1,
        required: 1,
        passed: player_roll >= trial_roll,
    }
}

#[test]
fn stats_sheet_without_and_with_gear() {
    let reg = ItemRegistry::default();
    assert_eq!(stats_reply(&None, &reg), "You don't have a chud.");
    let p = create_chud(1, "Grog".to_string(), "big".to_string());
    assert_eq!(
        stats_reply(&Some(p), &reg),
        "**Grog**\nbig\n\nStash: empty (0/5) - use `/gear` to manage loadout\nStats: Strength 1, Smarts 1, Stealth 1, Experience 1\n0 job completed, 0 failed\n\nYou've got $0 worth of loose change."
    );
    let mut reg = ItemRegistry::default();
    let id = reg.add_item(axe());
    let mut p = create_chud(1, "Grog".to_string(), "big".to_string());
    p.chud.as_mut().unwrap().equipment.weapon = Some(id);
    p.stash = Stash::from_items(vec![99]);
    p.cash = 7;
    assert_eq!(
        stats_reply(&Some(p), &reg),
        "**Grog**\nbig\n\nWeapon: **Axe** (weapon) [+2,-,-]\n\nStash: 1/5 items - use `/gear` to manage loadout\nStats: Strength ~~1~~ 3, Smarts 1, Stealth 1, Experience 1\n0 job completed, 0 failed\n\nYou've got $7 worth of loose change."
    );
    let mut no_chud = create_chud(2, "Z".to_string(), "z".to_string());
    no_chud.chud = None;
    assert_eq!(stats_reply(&Some(no_chud), &reg), "You don't have a chud.");
}

#[test]
fn stash_line_forms() {
    assert_eq!(format_stash_line(0), "Stash: empty (0/5) - use `/gear` to manage loadout");
    assert_eq!(format_stash_line(3), "Stash: 3/5 items - use `/gear` to manage loadout");
}

#[test]
fn cash_replies() {
    assert_eq!(cash_reply(&None), "You don't have a chud.");
    let mut p = create_chud(1, "Grog".to_string(), "big".to_string());
    assert_eq!(cash_reply(&Some(p.clone())), "https://tenor.com/view/poor-no-money-gif-24226168");
    p.cash = 42;
    assert_eq!(cash_reply(&Some(p)), "You've got 42 buckeroos");
}

#[test]
fn job_replies() {
    let mut board = Board::default();
    let p = create_chud(7, "Ann Lee".to_string(), "a".to_string());
    assert_eq!(job_reply(&None, &board, 7), "You don't have a chud.");
    assert_eq!(job_reply(&Some(p.clone()), &board, 7), "**Ann Lee** is not on a job.");
    board.quests.push(quest(1, vec![TrialStats { strength: 1, smarts: 0, stealth: 0 }], Some(7)));
    assert_eq!(job_reply(&Some(p.clone()), &board, 7), "**Rat Trouble** - *Old Man*\nRats everywhere.");
    board.quests[0].quest_data.trials.push(TrialStats { strength: 2, smarts: 0, stealth: 0 });
    assert_eq!(
        job_reply(&Some(p), &board, 7),
        "**Rat Trouble** - *Old Man*\nRats everywhere.\n\nAnn Lee is overcoming trials and tribulations."
    );
}

#[test]
fn inspect_description_appends_gear() {
    let mut reg = ItemRegistry::default();
    let p = create_chud(1, "Grog".to_string(), "big".to_string());
    assert_eq!(format_inspect_description(&p, &reg, "Grog: big".to_string()), "Grog: big");
    let id = reg.add_item(axe());
    let mut p = p;
    p.chud.as_mut().unwrap().equipment.weapon = Some(id);
    assert_eq!(
        format_inspect_description(&p, &reg, "Grog: big".to_string()),
        "Grog: big\n\nWeapon: **Axe** (weapon) [+2,-,-]"
    );
}

#[test]
fn conversation_ids_and_resets() {
    assert_eq!(results_conversation_id("Big Grog the Third"), "Big_Grog_the_Third");
    assert_eq!(replace_char("a b", ' ', '-'), "a-b");
    assert_eq!(job_conversation_ids(JobMemoryKind::Regular), ("description", "trials"));
    assert_eq!(job_conversation_ids(JobMemoryKind::Story), ("story_description", "story_trials"));
    assert!(!job_memory_reset_due(0, 100, 100));
    assert!(job_memory_reset_due(3, 6, 0));
    assert!(job_memory_reset_due(3, 1, 7));
    assert!(!job_memory_reset_due(3, 5, 5));
    assert!(!result_memory_reset_due(0, 10));
    assert!(result_memory_reset_due(2, 4));
    assert!(!result_memory_reset_due(2, 3));
    assert_eq!(stock_conversation_id("Old Ropey Pete"), "merchant_stock_Old_Ropey_Pete");
}

#[test]
fn prompt_scaffolds() {
    assert_eq!(
        trial_scaffold(2),
        "\nThe response should only contain a yaml of this structure:\n```yaml\ntrials:\n  - REPLACE_TRIAL_1\n  - REPLACE_TRIAL_2\n```"
    );
    assert_eq!(
        trial_scaffold(0),
        "\nThe response should only contain a yaml of this structure:\n```yaml\ntrials:\n\n```"
    );
    assert_eq!(
        results_scaffold(1),
        "\nThe response should only contain a yaml of this structure:\n```yaml\ntrials:\n  - REPLACE_TRIAL_1\nsummary: REPLACE_QUEST_SUMMARY\n```"
    );
    assert_eq!(prompt_with_scaffold("a: 1\n", "\nX"), "a: 1\n\nX");
    assert!(profiles_prompt_tail(6).ends_with("```\nGenerate exactly 6 merchants."));
    assert!(profiles_prompt_tail(6).contains("merchants:\n  - name: REPLACE_NAME\n    theme: REPLACE_THEME\n"));
    assert!(stock_prompt_tail(4).ends_with("description: REPLACE_DESCRIPTION\n```\nGenerate flavor for exactly 4 items."));
    assert!(item_prompt_tail("rare").ends_with("description: REPLACE_DESCRIPTION\n```\nThis item is rare."));
    let ctx = merchant_profile_system_context("a swamp");
    assert!(ctx.contains("Create distinct merchant shop identities for this world: a swamp\n- Each merchant"));
    assert!(item_system_context("a swamp").contains("- Match this world setting: a swamp\n- Do NOT change"));
}

#[test]
fn profile_count_check() {
    assert!(check_profile_count(3, 3).is_ok());
    assert_eq!(check_profile_count(3, 2), Err("expected 3 merchant profiles, got 2".to_string()));
}

#[test]
fn written_quest_keeps_given_goal() {
    let mut q = quest(1, vec![TrialStats { strength: 1, smarts: 0, stealth: 0 }], None).quest_data;
    let g = written_quest(&q, "T".into(), "G".into(), "D".into(), "made up".into(), vec!["s".into()], 9);
    assert_eq!(g.quest_goal, "made up");
    assert_eq!(g.reward, 9);
    q.quest_goal = Some("slay it".to_string());
    let g = written_quest(&q, "T".into(), "G".into(), "D".into(), "made up".into(), vec!["s".into()], 9);
    assert_eq!(g.quest_goal, "slay it");
    assert_eq!(g.trials, vec!["s".to_string()]);
}

#[test]
fn trial_results_pair_outcomes_with_situations() {
    let played = PlayedQuest {
        outcomes: vec![outcome(StatChoice::Smarts, 5, 2), outcome(StatChoice::Stealth, 1, 4)],
    };
    let situations = vec!["a".to_string(), "b".to_string(), "c".to_string()];
    let r = trial_results(&played, &situations);
    assert_eq!(r.len(), 2);
    assert_eq!(r[0].situation, "a");
    assert_eq!(r[0].stat_used, "smarts");
    assert_eq!(r[0].margin, 3);
    assert!(r[0].passed);
    assert_eq!(r[1].stat_used, "stealth");
    assert_eq!(r[1].margin, -3);
    assert!(!r[1].passed);
    assert_eq!(failure_outcome_word(FailureKind::Died), "died");
    assert_eq!(failure_outcome_word(FailureKind::Injured), "injured");
    assert_eq!(failure_outcome_word(FailureKind::Failed), "failed");
}

#[test]
fn prepared_result_of_an_easy_job() {
    let reg = ItemRegistry::default();
    let p = create_chud(1, "Grog".to_string(), "big".to_string());
    let bq = quest(1, vec![TrialStats { strength: 0, smarts: 0, stealth: 0 }; 2], None);
    let choices = vec![StatChoice::Strength, StatChoice::Smarts];
    let prep = prepare_quest_result(&reg, &bq, &p, &choices, FailureKind::Died);
    assert_eq!(prep.played.outcomes.len(), 2);
    assert!(prep.played.outcomes.iter().all(|o| o.passed));
    assert_eq!(prep.failure_outcome, None);
    assert_eq!(prep.effective, (1, 1, 1));
    assert_eq!(prep.trial_results[1].situation, "situation 2");
    assert_eq!(prep.trial_results[1].stat_used, "smarts");
    assert_eq!(prep.adventurer_description, "big");
    assert_eq!(adventurer_description(&p, &reg), "big");
}

#[test]
fn completion_and_pending_deaths() {
    let c = story_completion(None, None);
    assert_eq!(c.user_id, 0);
    assert_eq!(c.chud_name, "a chud");
    let c = story_completion(Some(9), Some("Zed".to_string()));
    assert_eq!((c.user_id, c.chud_name.as_str()), (9, "Zed"));
    let chud = create_chud(5, "Grog Smash".to_string(), "x".to_string()).chud.unwrap();
    let pending = vec![KillChudPending {
        discord_user_id: 5,
        chud_name: "Grog Smash".to_string(),
        benefits_awarded: 12,
        chud,
        death_trial: "t".to_string(),
        death_outcome: "o".to_string(),
    }];
    assert_eq!(pending_death_for(&pending, 5), Some(0));
    assert_eq!(pending_death_for(&pending, 6), None);
    let k = kill_result_of(&pending[0], "RIP".to_string());
    assert_eq!((k.discord_user_id, k.benefits_awarded), (5, 12));
    assert_eq!(k.chud_name, "Grog Smash");
    assert_eq!(k.epitaph, "RIP");
}

#[test]
fn button_ids_and_hospital_replies() {
    assert_eq!(parse_button_id("take:12", "take:"), Some(12));
    assert_eq!(parse_button_id("scout:x", "scout:"), None);
    assert_eq!(parse_button_id("take:12", "scout:"), None);
    assert_eq!(parse_heal_button("heal:123456789012"), Some(123456789012));
    assert_eq!(parse_heal_button("heal:"), None);
    assert_eq!(heal_button_id(77), "heal:77");
    assert_eq!(days_remaining_text(1), "1 day");
    assert_eq!(days_remaining_text(0), "0 days");
    assert_eq!(days_remaining_text(3), "3 days");
    let mut p = create_chud(1, "Grog".to_string(), "big".to_string());
    p.cash = 10;
    match hospitalized_reply(&p, 2, Some(10)) {
        HospitalReply::HealOffer { msg, heal_price } => {
            assert_eq!(heal_price, 10);
            assert_eq!(msg.key, "busy_hospitalized");
            assert_eq!(msg.args, vec!["Grog".to_string(), "2 days".to_string()]);
        }
        _ => panic!("expected a heal offer"),
    }
    match hospitalized_reply(&p, 2, Some(11)) {
        HospitalReply::Notice(msg) => {
            assert_eq!(msg.key, "heal_insufficient_funds");
            assert_eq!(msg.args, vec!["Grog".to_string()]);
        }
        _ => panic!("expected a notice"),
    }
    match hospitalized_reply(&p, 1, None) {
        HospitalReply::Notice(msg) => assert_eq!(msg.args, vec!["Grog".to_string(), "1 day".to_string()]),
        _ => panic!("expected a notice"),
    }
}

#[test]
fn start_times() {
    assert_eq!(parse_i64("-9223372036854775808"), Some(i64::MIN));
    assert_eq!(parse_i64("9223372036854775808"), None);
    assert_eq!(parse_i64("+17"), Some(17));
    assert_eq!(parse_i64("-"), None);
    assert_eq!(parse_start_time(" 1700000000 "), Some(1700000000));
    assert_eq!(parse_start_time("2026-06-10T18:00:00-07:00"), Some(1781139600));
    assert_eq!(parse_start_time("2026-06-10 18:00"), Some(1781114400));
    assert_eq!(parse_start_time("2026-06-10T18:00:30"), Some(1781114430));
    assert_eq!(parse_start_time("next tuesday"), None);
}

#[test]
fn scheduling_a_start() {
    let mut s = GameSession::default();
    s.phase = GamePhase::Playing;
    assert_eq!(
        schedule_start(&mut s, "1700000000"),
        Err("you can only schedule a start while in the attract phase".to_string())
    );
    assert_eq!(s.game_start_at, None);
    s.phase = GamePhase::Attract;
    assert!(schedule_start(&mut s, "soon").is_err());
    assert_eq!(schedule_start(&mut s, "1700000000"), Ok(1700000000));
    assert_eq!(s.game_start_at, Some(1700000000));
    assert_eq!(scheduled_reply(1700000000), "ok, game starts <t:1700000000:R>");
}

#[test]
fn merchant_spawn_replies() {
    let name = Some("Pete".to_string());
    assert_eq!(spawn_merchant_reply(&name, &Ok(())), "ok, Pete will appear next tick");
    assert_eq!(spawn_merchant_reply(&None, &Ok(())), "ok, a merchant will appear next tick");
    assert_eq!(spawn_merchant_reply(&None, &Err(ForcedSpawnError::AlreadyVisiting)), "a merchant is already visiting");
    assert_eq!(spawn_merchant_reply(&None, &Err(ForcedSpawnError::NoCatalog)), "no merchant catalog loaded yet");
    assert_eq!(spawn_merchant_reply(&name, &Err(ForcedSpawnError::MerchantNotFound)), "no merchant named \"Pete\"");
    assert_eq!(spawn_merchant_reply(&name, &Err(ForcedSpawnError::MerchantEmpty)), "Pete has no stock");
    assert!(generation_idle(0, 0, 0));
    assert!(!generation_idle(0, 1, 0));
}

#[test]
fn roster_entries_and_packing() {
    assert_eq!(format_chud_entry("Grog", "bob", "big\nugly"), "**Grog**, bob's chud\n-# big\n-# ugly");
    assert!(pack_roster(&vec![]).is_empty());
    let entries: Vec<String> = (0..41).map(|i| format!("e{i}")).collect();
    let msgs = pack_roster(&entries);
    assert_eq!(msgs.len(), 3);
    assert_eq!(msgs[0].components.len(), 39);
    assert_eq!(msgs[1].components.len(), 39);
    assert_eq!(msgs[2].components.len(), 1);
    assert_eq!(msgs[0].flags, 0x8040);
    match &msgs[1].components[0] {
        Component::Text(t) => assert_eq!(t.content, "e20"),
        _ => panic!("expected text"),
    }
    assert!(matches!(msgs[0].components[1], Component::Separator(_)));
}

#[test]
fn folded_name_sort() {
    let ps = vec![
        create_chud(1, "bob".to_string(), "x".to_string()),
        create_chud(2, "Alice".to_string(), "x".to_string()),
        create_chud(3, "Carl".to_string(), "x".to_string()),
    ];
    let sorted = sort_players_by_folded_name(ps);
    let ids: Vec<u64> = sorted.iter().map(|p| p.discord_user_id).collect();
    assert_eq!(ids, vec![2, 1, 3]);
}

#[test]
fn graveyard_replies() {
    let mut g = Graveyard::default();
    assert!(matches!(graveyard_reply(&None, &g, true), GraveyardReply::NoChud));
    assert_eq!(need_a_chud_text(), "you need a chud");
    let p = create_chud(1, "Grog".to_string(), "big".to_string());
    match graveyard_reply(&Some(p.clone()), &g, true) {
        GraveyardReply::Empty(m) => assert_eq!(m.key, "graveyard_empty"),
        _ => panic!("expected empty"),
    }
    let dead = create_chud(2, "Zed".to_string(), "z".to_string()).chud.unwrap();
    g.entries.push(GraveyardEntry {
        discord_user_id: 2,
        chud: dead,
        epitaph: "e".to_string(),
        death_trial: "t".to_string(),
        death_outcome: "o".to_string(),
    });
    match graveyard_reply(&Some(p.clone()), &g, true) {
        GraveyardReply::Show { visit_line: Some(m) } => {
            assert_eq!(m.key, "graveyard_visit");
            assert_eq!(m.args, vec!["Grog".to_string()]);
        }
        _ => panic!("expected a visit"),
    }
    assert!(matches!(graveyard_reply(&Some(p), &g, false), GraveyardReply::Show { visit_line: None }));
}

#[test]
fn tick_start_and_merchant_tick() {
    let mut s = GameSession::default();
    assert_eq!(begin_tick(&mut s), Some(1));
    s.total_ticks = u32::MAX;
    assert_eq!(begin_tick(&mut s), Some(u32::MAX));
    s.phase = GamePhase::Attract;
    assert_eq!(begin_tick(&mut s), None);
    let mut m = MerchantState::default();
    m.spawn_next_tick = true;
    let (event, departing) = merchant_tick(&mut m);
    assert_eq!(event, MerchantTickEvent::Idle);
    assert_eq!(departing, None);
    assert!(!m.spawn_next_tick);
}
