use vstd::prelude::*;

use crate::game::domain::item::Item;
use crate::game::merchant::MerchantDefinition;
use crate::game::persistence::item_registry::ItemRegistry;
use crate::text::{dec, owned, push_dec, push_str, replace_char};

verus! {

/// The items as registered from id `first` on, one id each, in order.
pub open spec fn registered_from(items: Seq<Item>, first: int) -> Seq<Item> {
    Seq::new(items.len(), |i: int| Item { id: (first + i) as u32, ..items[i] })
}

/// A generated merchant's roster entry: each of its flavoured, priced items is registered
/// under the next free id, and the ids, in order, make its stock pool.
pub fn stock_merchant(registry: &mut ItemRegistry, name: String, theme: String, items: Vec<Item>) -> (r: MerchantDefinition)
    requires
        old(registry).next_id + items@.len() < u32::MAX,
    ensures
        r.name == name,
        r.theme == theme,
        r.stock_pool@ == Seq::new(items@.len(), |i: int| (old(registry).next_id + i) as u32),
        final(registry).next_id == old(registry).next_id + items@.len(),
        final(registry).items@ == old(registry).items@ + registered_from(items@, old(registry).next_id as int),
        old(registry).wf() ==> final(registry).wf(),
{
    let ghost start = registry.next_id as int;
    let ghost orig = registry.items@;
    let ghost all = items@;
    let mut rest = items;
    let mut pool: Vec<u32> = Vec::new();
    let mut k: usize = 0;
    while rest.len() > 0
        invariant
            k + rest@.len() == all.len(),
            rest@ == all.subrange(k as int, all.len() as int),
            start + all.len() < u32::MAX,
            registry.next_id == start + k,
            pool@ == Seq::new(k as nat, |i: int| (start + i) as u32),
            registry.items@ == orig + registered_from(all.subrange(0, k as int), start),
            old(registry).wf() ==> registry.wf(),
            orig == old(registry).items@,
            start == old(registry).next_id,
        decreases rest@.len(),
    {
        let ghost rv = rest@;
        let item = rest.remove(0);
        assert(rest@ =~= rv.drop_first());
        assert(item == all[k as int]);
        let ghost before = registry.items@;
        let id = registry.add_item(item);
        pool.push(id);
        assert(pool@ =~= Seq::new((k + 1) as nat, |i: int| (start + i) as u32));
        assert(registered_from(all.subrange(0, k + 1), start) =~= registered_from(all.subrange(0, k as int), start).push(
            Item { id: (start + k) as u32, ..all[k as int] },
        ));
        k += 1;
        assert(registry.items@ =~= orig + registered_from(all.subrange(0, k as int), start));
    }
    assert(all.subrange(0, k as int) =~= all);
    MerchantDefinition { name, theme, stock_pool: pool }
}

/// The instructions of the merchant-profile agent, set in the given world.
pub fn merchant_profile_system_context(world_setting: &str) -> (r: String)
    ensures
        r@ == "You are inventing traveling merchants who visit a Chud guild hall to sell gear.\n\nYour task:\n- Create distinct merchant shop identities for this world: "@ + world_setting@ + "\n- Each merchant needs a plain 'name' (2-5 words, like \"Old Ropey Pete\" or \"The Scrap Witch\")\n- Each merchant needs a 'theme': 1-2 sentences describing their shop vibe, specialty, and aesthetic (used later to name their inventory)\n\nRULES:\n- Merchants should feel varied: junk peddlers, suspicious alchemists, ex-adventurer flippers, etc.\n- Do NOT use legendary proper-noun titles\n- Avoid emdash use\n- Output ONLY valid YAML\n- Reply with ONLY valid YAML (no preamble). You may wrap in ```yaml fences."@,
{
    let mut s = owned("You are inventing traveling merchants who visit a Chud guild hall to sell gear.\n\nYour task:\n- Create distinct merchant shop identities for this world: ");
    push_str(&mut s, world_setting);
    push_str(&mut s, "\n- Each merchant needs a plain 'name' (2-5 words, like \"Old Ropey Pete\" or \"The Scrap Witch\")\n- Each merchant needs a 'theme': 1-2 sentences describing their shop vibe, specialty, and aesthetic (used later to name their inventory)\n\nRULES:\n- Merchants should feel varied: junk peddlers, suspicious alchemists, ex-adventurer flippers, etc.\n- Do NOT use legendary proper-noun titles\n- Avoid emdash use\n- Output ONLY valid YAML\n- Reply with ONLY valid YAML (no preamble). You may wrap in ```yaml fences.");
    s
}

/// The instructions of the merchant-stock agent, set in the given world.
pub fn merchant_stock_system_context(world_setting: &str) -> (r: String)
    ensures
        r@ == "You are naming and describing items sold by a traveling merchant.\n\nYou will receive:\n- The merchant's name and theme\n- Partial item data (type, optional subtype, stat bonuses, rarity) already rolled by the game\n\nRARITY:\n- Use the item's rarity to shape name adjectives and description tone\n- common: mundane, worn, unremarkable\n- uncommon: slightly special craftsmanship or materials\n- rare: prized, ominous, or conspicuously fine\n- exceptional: unmistakably remarkable without becoming a proper-noun title\n\nYour task:\n- For each item, write a plain 'name': a simple 2-4 word descriptor\n  - Draw from the merchant's theme for materials and flavor\n  - Invent the item type from the theme when subtype is not present\n  - Take into account stat modifiers when naming\n  - Do NOT invent unique proper-noun titles\n- For each item, write a 'description': 1-2 sentences about how it looks or feels\n  - Describe the object only; do NOT mention the merchant by name or explain the sale\n\nRULES:\n- Match this world setting: "@ + world_setting@ + "\n- Do NOT change item type, subtype, or stats\n- Return exactly as many items as provided in the input, in the same order\n- Avoid emdash use\n- Output ONLY valid YAML with an 'items' list of {name, description} objects\n- Reply with ONLY valid YAML (no preamble). You may wrap in ```yaml fences."@,
{
    let mut s = owned("You are naming and describing items sold by a traveling merchant.\n\nYou will receive:\n- The merchant's name and theme\n- Partial item data (type, optional subtype, stat bonuses, rarity) already rolled by the game\n\nRARITY:\n- Use the item's rarity to shape name adjectives and description tone\n- common: mundane, worn, unremarkable\n- uncommon: slightly special craftsmanship or materials\n- rare: prized, ominous, or conspicuously fine\n- exceptional: unmistakably remarkable without becoming a proper-noun title\n\nYour task:\n- For each item, write a plain 'name': a simple 2-4 word descriptor\n  - Draw from the merchant's theme for materials and flavor\n  - Invent the item type from the theme when subtype is not present\n  - Take into account stat modifiers when naming\n  - Do NOT invent unique proper-noun titles\n- For each item, write a 'description': 1-2 sentences about how it looks or feels\n  - Describe the object only; do NOT mention the merchant by name or explain the sale\n\nRULES:\n- Match this world setting: ");
    push_str(&mut s, world_setting);
    push_str(&mut s, "\n- Do NOT change item type, subtype, or stats\n- Return exactly as many items as provided in the input, in the same order\n- Avoid emdash use\n- Output ONLY valid YAML with an 'items' list of {name, description} objects\n- Reply with ONLY valid YAML (no preamble). You may wrap in ```yaml fences.");
    s
}

/// What follows the YAML of a profile request: the answer template and the count asked for.
pub open spec fn profiles_prompt_tail_text(count: nat) -> Seq<char> {
    "\nThe response should only contain a yaml of this structure:\n```yaml\nmerchants:\n  - name: REPLACE_NAME\n    theme: REPLACE_THEME\n```\nGenerate exactly "@
        + dec(count) + " merchants."@
}

pub fn profiles_prompt_tail(count: usize) -> (r: String)
    ensures
        r@ == profiles_prompt_tail_text(count as nat),
{
    let mut s = owned("\nThe response should only contain a yaml of this structure:\n```yaml\nmerchants:\n  - name: REPLACE_NAME\n    theme: REPLACE_THEME\n```\nGenerate exactly ");
    push_dec(&mut s, count as u64);
    push_str(&mut s, " merchants.");
    s
}

/// What follows the YAML of a stock request: the answer template and the item count.
pub open spec fn stock_prompt_tail_text(expected: nat) -> Seq<char> {
    "\nThe response should only contain a yaml of this structure:\n```yaml\nitems:\n  - name: REPLACE_NAME\n    description: REPLACE_DESCRIPTION\n```\nGenerate flavor for exactly "@
        + dec(expected) + " items."@
}

pub fn stock_prompt_tail(expected: usize) -> (r: String)
    ensures
        r@ == stock_prompt_tail_text(expected as nat),
{
    let mut s = owned("\nThe response should only contain a yaml of this structure:\n```yaml\nitems:\n  - name: REPLACE_NAME\n    description: REPLACE_DESCRIPTION\n```\nGenerate flavor for exactly ");
    push_dec(&mut s, expected as u64);
    push_str(&mut s, " items.");
    s
}

/// The conversation a merchant's stock is written in: `merchant_stock_` and its name with
/// `_` for each space.
pub fn stock_conversation_id(merchant_name: &str) -> (r: String)
    ensures
        r@ == "merchant_stock_"@ + merchant_name@.map_values(|c: char| if c == ' ' { '_' } else { c }),
{
    let mut s = owned("merchant_stock_");
    let t = replace_char(merchant_name, ' ', '_');
    push_str(&mut s, t.as_str());
    s
}

/// The narrator must answer with exactly the number of profiles asked for.
pub fn check_profile_count(expected: usize, got: usize) -> (r: Result<(), String>)
    ensures
        got == expected <==> r is Ok,
        r matches Err(m) ==> m@ == "expected "@ + dec(expected as nat) + " merchant profiles, got "@ + dec(got as nat),
{
    if got != expected {
        let mut s = owned("expected ");
        push_dec(&mut s, expected as u64);
        push_str(&mut s, " merchant profiles, got ");
        push_dec(&mut s, got as u64);
        return Err(s);
    }
    Ok(())
}

} // verus!
