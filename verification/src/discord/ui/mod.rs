pub mod casino;
pub mod gear;
pub mod merchant;

use vstd::prelude::*;

use crate::discord::components_v2::{
    components_v2_flags, describe, describe_all, Component, ComponentDesc, ComponentsV2Message,
    TextDisplay, TYPE_TEXT_DISPLAY,
};
use crate::text::{owned, push_str};

verus! {

pub fn no_chud_message() -> (r: ComponentsV2Message)
    ensures
        r.flags == 0x8040,
        describe_all(r.components@) == seq![ComponentDesc::Text("You don't have a chud."@)],
{
    let mut v: Vec<Component> = Vec::new();
    v.push(Component::Text(TextDisplay::new(owned("You don't have a chud."))));
    let r = ComponentsV2Message { flags: components_v2_flags(), components: v };
    assert(describe_all(r.components@) =~= seq![ComponentDesc::Text("You don't have a chud."@)]);
    r
}

/// The status line, when there is one, as a code block at the end.
pub open spec fn status_notice_descs(notice: Option<Seq<char>>) -> Seq<ComponentDesc> {
    match notice {
        Some(n) => seq![ComponentDesc::Text("```"@ + n + "```"@)],
        None => Seq::empty(),
    }
}

pub fn push_status_notice(components: &mut Vec<Component>, notice: Option<&str>)
    ensures
        describe_all(final(components)@) == describe_all(old(components)@) + status_notice_descs(
            match notice {
                Some(n) => Some(n@),
                None => None,
            },
        ),
{
    match notice {
        Some(n) => {
            let mut s = owned("```");
            push_str(&mut s, n);
            push_str(&mut s, "```");
            components.push(Component::Text(TextDisplay::new(s)));
            assert(describe_all(components@) =~= describe_all(old(components)@) + status_notice_descs(Some(n@)));
        },
        None => {
            assert(describe_all(components@) =~= describe_all(old(components)@) + status_notice_descs(None));
        },
    }
}

} // verus!
