//! The fixed text around the loot-naming prompt.

use vstd::prelude::*;

use crate::text::{owned, push_str};

verus! {

/// The instructions of the loot-naming agent, set in the given world.
pub fn item_system_context(world_setting: &str) -> (r: String)
    ensures
        r@ == "You are naming and describing loot found after a Chud completes a job.\n\nYou will receive:\n- Partial item data (type, optional subtype, stat bonuses, rarity) already rolled by the game\n- Mission context for thematic inspiration only (setting, materials, tone)\n\nRARITY:\n- Use the item's rarity to shape name adjectives and description tone\n- common: mundane, worn, unremarkable\n- uncommon: slightly special craftsmanship or materials\n- rare: prized, ominous, or conspicuously fine\n- exceptional: unmistakably remarkable without becoming a proper-noun title\n\nYour task:\n- Write a plain 'name': a simple 2-4 word descriptor, like \"Mushroom Boots\" or \"Rusty Dagger\"\n  - Combine a thematic adjective/material from the job setting with the item subtype when present\n  - Invent the item type from the job setting when the item subtype is not present. A weapon can be anything from a plank of wood to a haunted rapier.\n  - Take into account the item's stat modifiers when creating a description\n  - Do NOT invent a unique proper-noun title\n  - Be creative\n- Write a 'description': 1-2 sentences describing the item itself — how it looks, feels, or what it is\n  - Describe the object only; do NOT recap the quest, mention the chud, or explain how it was obtained\n\nRULES:\n- Match this world setting: "@ + world_setting@ + "\n- Do NOT change item type, subtype, or stats\n- Avoid emdash use\n- Output ONLY valid YAML with 'name' and 'description' fields\n- Reply with ONLY valid YAML (no preamble). You may wrap in ```yaml fences.\n- Use block scalars (|) or double-quoted strings when needed"@,
{
    let mut s = owned("You are naming and describing loot found after a Chud completes a job.\n\nYou will receive:\n- Partial item data (type, optional subtype, stat bonuses, rarity) already rolled by the game\n- Mission context for thematic inspiration only (setting, materials, tone)\n\nRARITY:\n- Use the item's rarity to shape name adjectives and description tone\n- common: mundane, worn, unremarkable\n- uncommon: slightly special craftsmanship or materials\n- rare: prized, ominous, or conspicuously fine\n- exceptional: unmistakably remarkable without becoming a proper-noun title\n\nYour task:\n- Write a plain 'name': a simple 2-4 word descriptor, like \"Mushroom Boots\" or \"Rusty Dagger\"\n  - Combine a thematic adjective/material from the job setting with the item subtype when present\n  - Invent the item type from the job setting when the item subtype is not present. A weapon can be anything from a plank of wood to a haunted rapier.\n  - Take into account the item's stat modifiers when creating a description\n  - Do NOT invent a unique proper-noun title\n  - Be creative\n- Write a 'description': 1-2 sentences describing the item itself — how it looks, feels, or what it is\n  - Describe the object only; do NOT recap the quest, mention the chud, or explain how it was obtained\n\nRULES:\n- Match this world setting: ");
    push_str(&mut s, world_setting);
    push_str(&mut s, "\n- Do NOT change item type, subtype, or stats\n- Avoid emdash use\n- Output ONLY valid YAML with 'name' and 'description' fields\n- Reply with ONLY valid YAML (no preamble). You may wrap in ```yaml fences.\n- Use block scalars (|) or double-quoted strings when needed");
    s
}

/// What follows the YAML of a loot request: the answer template and the item's rarity.
pub fn item_prompt_tail(rarity: &str) -> (r: String)
    ensures
        r@ == "\nThe response should only contain a yaml of this structure:\n```yaml\nname: REPLACE_NAME\ndescription: REPLACE_DESCRIPTION\n```\nThis item is "@ + rarity@ + "."@,
{
    let mut s = owned("\nThe response should only contain a yaml of this structure:\n```yaml\nname: REPLACE_NAME\ndescription: REPLACE_DESCRIPTION\n```\nThis item is ");
    push_str(&mut s, rarity);
    push_str(&mut s, ".");
    s
}

} // verus!
