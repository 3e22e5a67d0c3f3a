use chudguild::discord::components_v2::{Component, ComponentsV2Message, TextDisplay};
use chudguild::discord::ui::gear::{build_gear_message, derive_gear_mode, GearInteractionMode};
use chudguild::game::domain::item::{Item, ItemStats, ItemType};
use chudguild::game::domain::player::create_chud;
use chudguild::game::domain::stash::Stash;
use chudguild::game::merchant::{normalize_merchants, MerchantDefinition, DUMPSTER_DAVE_NAME};
use chudguild::game::persistence::chudmasters::Chudmasters;
use chudguild::game::persistence::item_registry::ItemRegistry;
use chudguild::game::persistence::storage::{add_chudmaster, find_player_by_name, is_chudmaster, remove_chudmaster};

fn text_of(c: &Component) -> String {
    match c {
        Component::Text(t) => t.content.clone(),
        _ => String::new(),
    }
}

#[test]
fn packing_keeps_every_component_in_order() {
    let comps: Vec<Component> = (0..95).map(|i| Component::Text(TextDisplay::new(format!("c{i}")))).collect();
    let msgs = ComponentsV2Message::channel_packed(comps);
    assert!(msgs.len() >= 3);
    let flat: Vec<String> = msgs.iter().flat_map(|m| m.components.iter().map(text_of)).collect();
    let want: Vec<String> = (0..95).map(|i| format!("c{i}")).collect();
    assert_eq!(flat, want);
    for m in &msgs {
        assert!(m.components.len() <= 40);
    }
}

#[test]
fn chudmasters_add_remove() {
    let mut cms = Chudmasters { ids: vec![] };
    assert!(add_chudmaster(&mut cms, 5));
    assert!(!add_chudmaster(&mut cms, 5));
    assert!(is_chudmaster(&cms, 5));
    assert!(remove_chudmaster(&mut cms, 5));
    assert!(!is_chudmaster(&cms, 5));
    assert!(!remove_chudmaster(&mut cms, 5));
}

#[test]
fn find_player_by_trimmed_name() {
    let players = vec![
        create_chud(1, "Grog".to_string(), "a".to_string()),
        create_chud(2, "Zed Zed".to_string(), "b".to_string()),
    ];
    let found = find_player_by_name(players, "  zed zed ");
    assert_eq!(found.map(|p| p.discord_user_id), Some(2));
    let players = vec![create_chud(1, "Grog".to_string(), "a".to_string())];
    assert!(find_player_by_name(players, "   ").is_none());
}

#[test]
fn dave_goes_first() {
    let ms = vec![
        MerchantDefinition { name: "Moe".to_string(), theme: "m".to_string(), stock_pool: vec![1] },
        MerchantDefinition { name: DUMPSTER_DAVE_NAME.to_string(), theme: "d".to_string(), stock_pool: vec![7, 8] },
    ];
    let out = normalize_merchants(ms);
    assert_eq!(out[0].name, DUMPSTER_DAVE_NAME);
    assert_eq!(out[0].stock_pool, vec![7, 8]);
    assert_eq!(out[1].name, "Moe");
    assert_eq!(out.len(), 2);
}

#[test]
fn gear_modes_and_screen() {
    assert_eq!(derive_gear_mode(true, None), GearInteractionMode::ReadOnly);
    assert_eq!(derive_gear_mode(false, None), GearInteractionMode::Full);
    let mut reg = ItemRegistry::default();
    let id = reg.add_item(Item {
        id: 0,
        name: "Pan".to_string(),
        item_type: ItemType::Weapon,
        subtype: String::new(),
        stats: ItemStats { strength: "+1".to_string(), smarts: "-".to_string(), stealth: "-".to_string() },
        description: "a pan".to_string(),
        trigger: None,
        effect: None,
        rarity: "common".to_string(),
        value: 9,
    });
    let mut p = create_chud(1, "Grog".to_string(), "a".to_string());
    p.cash = 4;
    p.stash = Stash::from_items(vec![id]);
    let m = build_gear_message(&p, &reg, None, None, GearInteractionMode::Full);
    let texts: Vec<String> = m.components.iter().map(text_of).filter(|t| !t.is_empty()).collect();
    assert_eq!(texts[0], "**Equipped** \u{2014} $4 on hand");
    assert!(texts.iter().any(|t| t == "**Stash** (1/10)" || t.starts_with("**Stash** (1/")));
}
