//! Discord Components V2 payloads: layout and content components that a message carries
//! in place of a legacy `content` field, with the flag bit `1 << 15` set on the message.
//! A Container (type 17) is the visible bordered box; Text Display (type 10) holds markdown.

use vstd::prelude::*;

verus! {

pub const FLAG_IS_COMPONENTS_V2: u64 = 0x8000;

pub const FLAG_EPHEMERAL: u64 = 0x40;

pub const TYPE_ACTION_ROW: u8 = 1;

pub const TYPE_BUTTON: u8 = 2;

pub const TYPE_STRING_SELECT: u8 = 3;

pub const TYPE_TEXT_DISPLAY: u8 = 10;

pub const TYPE_SEPARATOR: u8 = 14;

pub const TYPE_CONTAINER: u8 = 17;

pub const STYLE_PRIMARY: u8 = 1;

pub const STYLE_SECONDARY: u8 = 2;

pub const STYLE_SUCCESS: u8 = 3;

pub const STYLE_DANGER: u8 = 4;

/// Discord's per-message component budget, nested children included.
pub const MAX_MESSAGE_COMPONENTS: usize = 40;

/// Message body for a Components V2 interaction response (no legacy `content` field).
#[derive(Debug)]
pub struct ComponentsV2Message {
    pub flags: u64,
    pub components: Vec<Component>,
}

#[derive(Debug)]
pub enum Component {
    Container(Container),
    Text(TextDisplay),
    ActionRow(ActionRow),
    Separator(Separator),
}

/// Container (type 17): a bordered box with an optional accent bar.
#[derive(Debug)]
pub struct Container {
    pub kind: u8,
    pub accent_color: Option<u32>,
    pub spoiler: bool,
    pub components: Vec<ContainerChild>,
}

/// Components allowed inside a container.
#[derive(Debug)]
pub enum ContainerChild {
    Text(TextDisplay),
    ActionRow(ActionRow),
    Separator(Separator),
}

/// Text Display (type 10).
#[derive(Debug)]
pub struct TextDisplay {
    pub kind: u8,
    pub content: String,
}

#[derive(Debug, Clone, Copy)]
pub struct Separator {
    pub kind: u8,
    pub divider: bool,
    pub spacing: u8,
}

#[derive(Debug)]
pub enum ActionRowChild {
    Button(Button),
    StringSelect(StringSelect),
}

#[derive(Debug)]
pub struct ActionRow {
    pub kind: u8,
    pub components: Vec<ActionRowChild>,
}

#[derive(Debug)]
pub struct StringSelect {
    pub kind: u8,
    pub custom_id: String,
    pub placeholder: Option<String>,
    pub options: Vec<SelectOption>,
}

#[derive(Debug)]
pub struct SelectOption {
    pub label: String,
    pub value: String,
    pub default: Option<bool>,
}

#[derive(Debug)]
pub struct Button {
    pub kind: u8,
    pub custom_id: String,
    pub label: String,
    pub style: u8,
}

/// Wrapper for `CHANNEL_MESSAGE_WITH_SOURCE` interaction responses (new ephemeral message).
#[derive(Debug)]
pub struct InteractionCreateResponse {
    pub kind: u8,
    pub data: ComponentsV2Message,
}

/// Wrapper for `UPDATE_MESSAGE` interaction responses (edit the triggering message).
#[derive(Debug)]
pub struct InteractionUpdateResponse {
    pub kind: u8,
    pub data: ComponentsV2Message,
}

/// Nodes counted for one container child: itself, plus the buttons of an action row.
pub open spec fn child_size(c: ContainerChild) -> int {
    match c {
        ContainerChild::ActionRow(row) => 1 + row.components@.len() as int,
        _ => 1,
    }
}

/// Nodes counted for a list of container children.
pub open spec fn children_size(cs: Seq<ContainerChild>) -> int
    decreases cs.len(),
{
    if cs.len() == 0 {
        0
    } else {
        children_size(cs.drop_last()) + child_size(cs.last())
    }
}

/// Nodes counted for a top-level component, nested children included.
pub open spec fn component_size(c: Component) -> int {
    match c {
        Component::Container(k) => 1 + children_size(k.components@),
        Component::ActionRow(row) => 1 + row.components@.len() as int,
        _ => 1,
    }
}

/// Nodes counted for a list of top-level components.
pub open spec fn components_size(cs: Seq<Component>) -> int
    decreases cs.len(),
{
    if cs.len() == 0 {
        0
    } else {
        components_size(cs.drop_last()) + component_size(cs.last())
    }
}

/// Greedy packing: components go, in order, into the current message until the next one
/// would push a non-empty message over the budget; then a new message starts.
pub open spec fn pack_from(cs: Seq<Component>, cur: Seq<Component>, cur_size: int) -> Seq<
    Seq<Component>,
>
    decreases cs.len(),
{
    if cs.len() == 0 {
        if cur.len() > 0 {
            seq![cur]
        } else {
            Seq::empty()
        }
    } else {
        let size = component_size(cs[0]);
        if cur.len() > 0 && cur_size + size > MAX_MESSAGE_COMPONENTS {
            seq![cur] + pack_from(cs.drop_first(), seq![cs[0]], size)
        } else {
            pack_from(cs.drop_first(), cur.push(cs[0]), cur_size + size)
        }
    }
}

pub open spec fn packed(cs: Seq<Component>) -> Seq<Seq<Component>> {
    pack_from(cs, Seq::empty(), 0)
}

pub open spec fn concat_all(groups: Seq<Seq<Component>>) -> Seq<Component>
    decreases groups.len(),
{
    if groups.len() == 0 {
        Seq::empty()
    } else {
        concat_all(groups.drop_last()) + groups.last()
    }
}

pub open spec fn message_components(ms: Seq<ComponentsV2Message>) -> Seq<Seq<Component>> {
    ms.map_values(|m: ComponentsV2Message| m.components@)
}

impl Container {
    pub fn new(components: Vec<ContainerChild>) -> (r: Self)
        ensures
            r == (Container { kind: TYPE_CONTAINER, accent_color: None, spoiler: false, components }),
    {
        Container { kind: TYPE_CONTAINER, accent_color: None, spoiler: false, components }
    }

    pub fn with_accent(accent_color: u32, components: Vec<ContainerChild>) -> (r: Self)
        ensures
            r == (Container {
                kind: TYPE_CONTAINER,
                accent_color: Some(accent_color),
                spoiler: false,
                components,
            }),
    {
        Container { kind: TYPE_CONTAINER, accent_color: Some(accent_color), spoiler: false, components }
    }

    pub fn spoiled(components: Vec<ContainerChild>) -> (r: Self)
        ensures
            r == (Container { kind: TYPE_CONTAINER, accent_color: None, spoiler: true, components }),
    {
        Container { kind: TYPE_CONTAINER, accent_color: None, spoiler: true, components }
    }

    pub fn with_accent_spoiled(accent_color: u32, components: Vec<ContainerChild>) -> (r: Self)
        ensures
            r == (Container {
                kind: TYPE_CONTAINER,
                accent_color: Some(accent_color),
                spoiler: true,
                components,
            }),
    {
        Container { kind: TYPE_CONTAINER, accent_color: Some(accent_color), spoiler: true, components }
    }

    fn tree_size(&self) -> (r: usize)
        requires
            1 + children_size(self.components@) <= usize::MAX,
        ensures
            r == 1 + children_size(self.components@),
    {
        let mut total: usize = 1;
        let mut i: usize = 0;
        while i < self.components.len()
            invariant
                i <= self.components@.len(),
                1 + children_size(self.components@) <= usize::MAX,
                total == 1 + children_size(self.components@.subrange(0, i as int)),
            decreases self.components@.len() - i,
        {
            proof {
                lemma_children_size_prefix(self.components@, i as int + 1);
                assert(self.components@.subrange(0, i + 1).drop_last() =~= self.components@.subrange(
                    0,
                    i as int,
                ));
            }
            total = total + self.components[i].tree_size();
            i += 1;
        }
        assert(self.components@.subrange(0, i as int) =~= self.components@);
        total
    }
}

proof fn lemma_child_size_pos(c: ContainerChild)
    ensures
        child_size(c) >= 1,
{
}

/// The nodes of a prefix never outnumber those of the whole list.
proof fn lemma_children_size_prefix(cs: Seq<ContainerChild>, n: int)
    requires
        0 <= n <= cs.len(),
    ensures
        children_size(cs.subrange(0, n)) <= children_size(cs),
    decreases cs.len() - n,
{
    if n < cs.len() {
        lemma_children_size_prefix(cs, n + 1);
        assert(cs.subrange(0, n + 1).drop_last() =~= cs.subrange(0, n));
        lemma_child_size_pos(cs[n]);
    } else {
        assert(cs.subrange(0, n) =~= cs);
    }
}

impl ContainerChild {
    fn tree_size(&self) -> (r: usize)
        requires
            child_size(*self) <= usize::MAX,
        ensures
            r == child_size(*self),
    {
        match self {
            ContainerChild::ActionRow(row) => 1 + row.components.len(),
            _ => 1,
        }
    }
}

impl Component {
    pub fn tree_size(&self) -> (r: usize)
        requires
            component_size(*self) <= usize::MAX,
        ensures
            r == component_size(*self),
    {
        match self {
            Component::Container(container) => container.tree_size(),
            Component::ActionRow(row) => 1 + row.components.len(),
            _ => 1,
        }
    }
}

impl TextDisplay {
    pub fn new(content: String) -> (r: Self)
        ensures
            r.kind == TYPE_TEXT_DISPLAY,
            r.content == content,
    {
        TextDisplay { kind: TYPE_TEXT_DISPLAY, content }
    }
}

impl Separator {
    pub fn section() -> (r: Self)
        ensures
            r == (Separator { kind: TYPE_SEPARATOR, divider: true, spacing: 2 }),
    {
        Separator { kind: TYPE_SEPARATOR, divider: true, spacing: 2 }
    }
}

impl ActionRow {
    pub fn one_button(button: Button) -> (r: Self)
        ensures
            r.kind == TYPE_ACTION_ROW,
            r.components@ == seq![ActionRowChild::Button(button)],
    {
        let mut v: Vec<Button> = Vec::new();
        v.push(button);
        let r = Self::buttons(v);
        assert(r.components@ =~= seq![ActionRowChild::Button(button)]);
        r
    }

    pub fn buttons(buttons: Vec<Button>) -> (r: Self)
        ensures
            r.kind == TYPE_ACTION_ROW,
            r.components@ == buttons@.map_values(|b: Button| ActionRowChild::Button(b)),
    {
        let mut rest = buttons;
        let ghost all = rest@;
        let mut out: Vec<ActionRowChild> = Vec::new();
        let ghost mut done: int = 0;
        while rest.len() > 0
            invariant
                0 <= done <= all.len(),
                rest@ == all.subrange(done, all.len() as int),
                out@ == all.subrange(0, done).map_values(|b: Button| ActionRowChild::Button(b)),
            decreases rest@.len(),
        {
            let b = rest.remove(0);
            out.push(ActionRowChild::Button(b));
            proof {
                done = done + 1;
            }
            assert(out@ =~= all.subrange(0, done).map_values(|b: Button| ActionRowChild::Button(b)));
            assert(rest@ =~= all.subrange(done, all.len() as int));
        }
        assert(all.subrange(0, done) =~= all);
        ActionRow { kind: TYPE_ACTION_ROW, components: out }
    }

    pub fn string_select(select: StringSelect) -> (r: Self)
        ensures
            r.kind == TYPE_ACTION_ROW,
            r.components@ == seq![ActionRowChild::StringSelect(select)],
    {
        let mut v: Vec<ActionRowChild> = Vec::new();
        v.push(ActionRowChild::StringSelect(select));
        assert(v@ =~= seq![ActionRowChild::StringSelect(select)]);
        ActionRow { kind: TYPE_ACTION_ROW, components: v }
    }
}

impl StringSelect {
    pub fn new(custom_id: String, placeholder: String, options: Vec<SelectOption>) -> (r: Self)
        ensures
            r == (StringSelect {
                kind: TYPE_STRING_SELECT,
                custom_id,
                placeholder: Some(placeholder),
                options,
            }),
    {
        StringSelect { kind: TYPE_STRING_SELECT, custom_id, placeholder: Some(placeholder), options }
    }
}

impl SelectOption {
    pub fn new(label: String, value: String) -> (r: Self)
        ensures
            r == (SelectOption { label, value, default: None }),
    {
        SelectOption { label, value, default: None }
    }

    pub fn with_default(self, is_default: bool) -> (r: Self)
        ensures
            r == (SelectOption { default: Some(is_default), ..self }),
    {
        let mut s = self;
        s.default = Some(is_default);
        s
    }
}

impl Button {
    pub fn primary(custom_id: String, label: String) -> (r: Self)
        ensures
            r == (Button { kind: TYPE_BUTTON, custom_id, label, style: STYLE_PRIMARY }),
    {
        Button { kind: TYPE_BUTTON, custom_id, label, style: STYLE_PRIMARY }
    }

    pub fn secondary(custom_id: String, label: String) -> (r: Self)
        ensures
            r == (Button { kind: TYPE_BUTTON, custom_id, label, style: STYLE_SECONDARY }),
    {
        Button { kind: TYPE_BUTTON, custom_id, label, style: STYLE_SECONDARY }
    }

    pub fn danger(custom_id: String, label: String) -> (r: Self)
        ensures
            r == (Button { kind: TYPE_BUTTON, custom_id, label, style: STYLE_DANGER }),
    {
        Button { kind: TYPE_BUTTON, custom_id, label, style: STYLE_DANGER }
    }
}

impl InteractionCreateResponse {
    pub fn ephemeral(data: ComponentsV2Message) -> (r: Self)
        ensures
            r == (InteractionCreateResponse { kind: 4, data }),
    {
        InteractionCreateResponse { kind: 4, data }
    }
}

impl InteractionUpdateResponse {
    pub fn update(data: ComponentsV2Message) -> (r: Self)
        ensures
            r == (InteractionUpdateResponse { kind: 7, data }),
    {
        InteractionUpdateResponse { kind: 7, data }
    }
}

/// Ephemeral interaction / follow-up (gear UI).
pub fn components_v2_flags() -> (r: u64)
    ensures
        r == FLAG_IS_COMPONENTS_V2 | FLAG_EPHEMERAL,
        r == 0x8040,
{
    let r = FLAG_IS_COMPONENTS_V2 | FLAG_EPHEMERAL;
    assert(0x8000u64 | 0x40u64 == 0x8040u64) by (bit_vector);
    r
}

/// Persistent channel messages (job board); no ephemeral flag.
pub fn channel_message_flags() -> (r: u64)
    ensures
        r == FLAG_IS_COMPONENTS_V2,
{
    FLAG_IS_COMPONENTS_V2
}

impl ComponentsV2Message {
    pub fn channel(components: Vec<Component>) -> (r: Self)
        ensures
            r == (ComponentsV2Message { flags: FLAG_IS_COMPONENTS_V2, components }),
    {
        ComponentsV2Message { flags: channel_message_flags(), components }
    }

    pub fn ephemeral(components: Vec<Component>) -> (r: Self)
        ensures
            r == (ComponentsV2Message { flags: 0x8040, components }),
    {
        ComponentsV2Message { flags: components_v2_flags(), components }
    }

    /// Single top-level container (the visible box in the client).
    pub fn channel_box(inner: Vec<ContainerChild>, accent_color: Option<u32>) -> (r: Self)
        ensures
            r.flags == FLAG_IS_COMPONENTS_V2,
            r.components@ == seq![
                Component::Container(
                    Container { kind: TYPE_CONTAINER, accent_color, spoiler: false, components: inner },
                ),
            ],
    {
        let container = match accent_color {
            Some(color) => Container::with_accent(color, inner),
            None => Container::new(inner),
        };
        let mut v: Vec<Component> = Vec::new();
        v.push(Component::Container(container));
        assert(v@ =~= seq![Component::Container(container)]);
        Self::channel(v)
    }

    /// Pack components into one or more channel messages that stay under Discord's
    /// nested-component budget: greedily, in order, a new message starting whenever the
    /// next component would push a non-empty one past the budget.
    pub fn channel_packed(components: Vec<Component>) -> (r: Vec<Self>)
        requires
            components_size(components@) <= usize::MAX,
        ensures
            message_components(r@) == packed(components@),
            forall|i: int| 0 <= i < r@.len() ==> #[trigger] r@[i].flags == FLAG_IS_COMPONENTS_V2,
    {
        let mut messages: Vec<Self> = Vec::new();
        let mut current: Vec<Component> = Vec::new();
        let mut current_size: usize = 0;
        let mut rest = components;
        let ghost all = rest@;
        let ghost mut done: int = 0;
        proof {
            lemma_components_size_prefix(all, 0);
        }
        while rest.len() > 0
            invariant
                0 <= done <= all.len(),
                rest@ == all.subrange(done, all.len() as int),
                components_size(all) <= usize::MAX,
                current_size == components_size(current@),
                components_size(all.subrange(0, done)) <= usize::MAX,
                current_size <= components_size(all.subrange(0, done)),
                message_components(messages@) + pack_from(rest@, current@, current_size as int)
                    == packed(all),
                forall|i: int|
                    0 <= i < messages@.len() ==> #[trigger] messages@[i].flags == FLAG_IS_COMPONENTS_V2,
            decreases rest@.len(),
        {
            proof {
                lemma_components_size_prefix(all, done + 1);
                assert(all.subrange(0, done + 1).drop_last() =~= all.subrange(0, done));
                assert(rest@[0] == all[done]);
                lemma_component_size_pos(all[done]);
            }
            let ghost before_rest = rest@;
            let component = rest.remove(0);
            assert(rest@ =~= before_rest.drop_first());
            let size = component.tree_size();
            if current.len() > 0 && current_size + size > MAX_MESSAGE_COMPONENTS {
                let ghost cur = current@;
                let mut taken: Vec<Component> = Vec::new();
                std::mem::swap(&mut taken, &mut current);
                let ghost before_msgs = message_components(messages@);
                messages.push(Self::channel(taken));
                assert(message_components(messages@) =~= before_msgs.push(cur));
                assert(before_msgs + (seq![cur] + pack_from(rest@, seq![component], size as int))
                    =~= before_msgs.push(cur) + pack_from(rest@, seq![component], size as int));
                current_size = 0;
                assert(current@ =~= Seq::<Component>::empty());
            }
            let ghost prev = current@;
            current_size = current_size + size;
            current.push(component);
            assert(current@.drop_last() =~= prev);
            assert(components_size(current@) == components_size(prev) + component_size(component));
            proof {
                done = done + 1;
            }
            assert(rest@ =~= all.subrange(done, all.len() as int));
        }
        if current.len() > 0 {
            let ghost before_msgs = message_components(messages@);
            let ghost cur = current@;
            messages.push(Self::channel(current));
            assert(message_components(messages@) =~= before_msgs.push(cur));
        } else {
            assert(message_components(messages@) + Seq::<Seq<Component>>::empty() =~= message_components(messages@));
        }
        messages
    }
}

proof fn lemma_component_size_pos(c: Component)
    ensures
        component_size(c) >= 1,
{
    match c {
        Component::Container(k) => {
            lemma_children_size_nonneg(k.components@);
        },
        _ => {},
    }
}

proof fn lemma_children_size_nonneg(cs: Seq<ContainerChild>)
    ensures
        children_size(cs) >= 0,
    decreases cs.len(),
{
    if cs.len() > 0 {
        lemma_children_size_nonneg(cs.drop_last());
        lemma_child_size_pos(cs.last());
    }
}

/// The nodes of a prefix never outnumber those of the whole list.
proof fn lemma_components_size_prefix(cs: Seq<Component>, n: int)
    requires
        0 <= n <= cs.len(),
    ensures
        components_size(cs.subrange(0, n)) <= components_size(cs),
        components_size(cs.subrange(0, n)) >= 0,
    decreases cs.len() - n,
{
    if n < cs.len() {
        lemma_components_size_prefix(cs, n + 1);
        assert(cs.subrange(0, n + 1).drop_last() =~= cs.subrange(0, n));
        lemma_component_size_pos(cs[n]);
        lemma_components_size_nonneg(cs.subrange(0, n));
    } else {
        assert(cs.subrange(0, n) =~= cs);
        lemma_components_size_nonneg(cs);
    }
}

proof fn lemma_components_size_nonneg(cs: Seq<Component>)
    ensures
        components_size(cs) >= 0,
    decreases cs.len(),
{
    if cs.len() > 0 {
        lemma_components_size_nonneg(cs.drop_last());
        lemma_component_size_pos(cs.last());
    }
}

proof fn lemma_concat_all_append(a: Seq<Seq<Component>>, b: Seq<Seq<Component>>)
    ensures
        concat_all(a + b) == concat_all(a) + concat_all(b),
    decreases b.len(),
{
    if b.len() == 0 {
        assert(a + b =~= a);
        assert(concat_all(a) + concat_all(b) =~= concat_all(a));
    } else {
        lemma_concat_all_append(a, b.drop_last());
        assert((a + b).drop_last() =~= a + b.drop_last());
        assert(concat_all(a) + (concat_all(b.drop_last()) + b.last()) =~= (concat_all(a) + concat_all(
            b.drop_last(),
        )) + b.last());
    }
}

proof fn lemma_concat_single(g: Seq<Component>)
    ensures
        concat_all(seq![g]) == g,
{
    assert(seq![g].drop_last() =~= Seq::<Seq<Component>>::empty());
    assert(concat_all(Seq::<Seq<Component>>::empty()) == Seq::<Component>::empty());
    assert(Seq::<Component>::empty() + g =~= g);
}

proof fn lemma_pack_from_concat(cs: Seq<Component>, cur: Seq<Component>, cur_size: int)
    ensures
        concat_all(pack_from(cs, cur, cur_size)) == cur + cs,
    decreases cs.len(),
{
    if cs.len() == 0 {
        if cur.len() > 0 {
            lemma_concat_single(cur);
        } else {
            assert(cur =~= Seq::<Component>::empty());
        }
        assert(cur + cs =~= cur);
    } else {
        let size = component_size(cs[0]);
        if cur.len() > 0 && cur_size + size > MAX_MESSAGE_COMPONENTS {
            lemma_pack_from_concat(cs.drop_first(), seq![cs[0]], size);
            lemma_concat_all_append(seq![cur], pack_from(cs.drop_first(), seq![cs[0]], size));
            lemma_concat_single(cur);
            assert(cur + (seq![cs[0]] + cs.drop_first()) =~= cur + cs);
        } else {
            lemma_pack_from_concat(cs.drop_first(), cur.push(cs[0]), cur_size + size);
            assert(cur.push(cs[0]) + cs.drop_first() =~= cur + cs);
        }
    }
}

/// Is a group of components a message that fits the budget (or holds one component that
/// is over it by itself)?
pub open spec fn fits_budget(g: Seq<Component>) -> bool {
    g.len() > 0 && (components_size(g) <= MAX_MESSAGE_COMPONENTS || g.len() == 1)
}

proof fn lemma_components_size_push(g: Seq<Component>, c: Component)
    ensures
        components_size(g.push(c)) == components_size(g) + component_size(c),
{
    assert(g.push(c).drop_last() =~= g);
}

proof fn lemma_pack_from_fits(cs: Seq<Component>, cur: Seq<Component>, cur_size: int)
    requires
        cur_size == components_size(cur),
        cur.len() == 0 || fits_budget(cur),
    ensures
        forall|i: int| 0 <= i < pack_from(cs, cur, cur_size).len() ==> #[trigger] fits_budget(
            pack_from(cs, cur, cur_size)[i],
        ),
    decreases cs.len(),
{
    if cs.len() == 0 {
        if cur.len() > 0 {
            assert(pack_from(cs, cur, cur_size) == seq![cur]);
            assert(seq![cur][0] == cur);
        }
    } else {
        let size = component_size(cs[0]);
        lemma_component_size_pos(cs[0]);
        if cur.len() > 0 && cur_size + size > MAX_MESSAGE_COMPONENTS {
            assert(pack_from(cs, cur, cur_size) == seq![cur] + pack_from(cs.drop_first(), seq![cs[0]], size));
            lemma_components_size_push(Seq::<Component>::empty(), cs[0]);
            assert(Seq::<Component>::empty().push(cs[0]) =~= seq![cs[0]]);
            lemma_pack_from_fits(cs.drop_first(), seq![cs[0]], size);
            let rest = pack_from(cs.drop_first(), seq![cs[0]], size);
            assert forall|i: int| 0 <= i < (seq![cur] + rest).len() implies #[trigger] fits_budget(
                (seq![cur] + rest)[i],
            ) by {
                if i > 0 {
                    assert((seq![cur] + rest)[i] == rest[i - 1]);
                }
            }
        } else {
            lemma_components_size_push(cur, cs[0]);
            lemma_components_size_nonneg(cur);
            assert(pack_from(cs, cur, cur_size) == pack_from(cs.drop_first(), cur.push(cs[0]), cur_size + size));
            if cur.len() == 0 {
                assert(cur.push(cs[0]).len() == 1);
            }
            assert(fits_budget(cur.push(cs[0])));
            lemma_pack_from_fits(cs.drop_first(), cur.push(cs[0]), cur_size + size);
        }
    }
}

/// Packing keeps every component, in order, and each message it makes fits Discord's
/// component budget, unless it holds a single component too large by itself.
pub proof fn lemma_packed_laws(cs: Seq<Component>)
    ensures
        concat_all(packed(cs)) == cs,
        forall|i: int| 0 <= i < packed(cs).len() ==> #[trigger] fits_budget(packed(cs)[i]),
{
    lemma_pack_from_concat(cs, Seq::empty(), 0);
    assert(Seq::<Component>::empty() + cs =~= cs);
    lemma_pack_from_fits(cs, Seq::empty(), 0);
}

/// Components of at most `k` nodes each make at most `k` nodes per component in all.
pub proof fn lemma_components_size_at_most(cs: Seq<Component>, k: int)
    requires
        forall|i: int| 0 <= i < cs.len() ==> #[trigger] component_size(cs[i]) <= k,
    ensures
        components_size(cs) <= k * cs.len(),
    decreases cs.len(),
{
    if cs.len() > 0 {
        lemma_components_size_at_most(cs.drop_last(), k);
        assert(component_size(cs[cs.len() - 1]) <= k);
        assert(k * (cs.len() - 1) + k == k * cs.len()) by (nonlinear_arith);
    }
}

pub proof fn lemma_children_size_small(cs: Seq<ContainerChild>)
    requires
        forall|i: int| 0 <= i < cs.len() ==> #[trigger] child_size(cs[i]) == 1,
    ensures
        children_size(cs) == cs.len(),
    decreases cs.len(),
{
    if cs.len() > 0 {
        lemma_children_size_small(cs.drop_last());
        assert(child_size(cs[cs.len() - 1]) == 1);
    }
}

/// A button as its text shows it.
pub struct ButtonDesc {
    pub custom_id: Seq<char>,
    pub label: Seq<char>,
    pub style: u8,
}

/// A top-level component as its text shows it: a text display, a row of buttons, a
/// section divider, or something else.
pub enum ComponentDesc {
    Text(Seq<char>),
    Buttons(Seq<ButtonDesc>),
    /// A row holding one string select: its custom id, placeholder, and options.
    Select(Seq<char>, Option<Seq<char>>, Seq<OptionDesc>),
    Section,
    Other,
}

/// A select option as its text shows it.
pub struct OptionDesc {
    pub label: Seq<char>,
    pub value: Seq<char>,
    pub default: Option<bool>,
}

pub open spec fn option_desc(o: SelectOption) -> OptionDesc {
    OptionDesc { label: o.label@, value: o.value@, default: o.default }
}

pub open spec fn opt_string_view(o: Option<String>) -> Option<Seq<char>> {
    match o {
        Some(s) => Some(s@),
        None => None,
    }
}

pub open spec fn button_desc(b: Button) -> ButtonDesc {
    ButtonDesc { custom_id: b.custom_id@, label: b.label@, style: b.style }
}

/// Are all the children of a row buttons (of the button component type)?
pub open spec fn all_buttons(cs: Seq<ActionRowChild>) -> bool {
    forall|i: int| 0 <= i < cs.len() ==> #[trigger] cs[i] is Button && cs[i]->Button_0.kind == TYPE_BUTTON
}

pub open spec fn row_buttons(cs: Seq<ActionRowChild>) -> Seq<ButtonDesc> {
    cs.map_values(|c: ActionRowChild| button_desc(c->Button_0))
}

pub open spec fn describe(c: Component) -> ComponentDesc {
    match c {
        Component::Text(t) => if t.kind == TYPE_TEXT_DISPLAY {
            ComponentDesc::Text(t.content@)
        } else {
            ComponentDesc::Other
        },
        Component::ActionRow(row) => if row.kind == TYPE_ACTION_ROW && all_buttons(row.components@) {
            ComponentDesc::Buttons(row_buttons(row.components@))
        } else if row.kind == TYPE_ACTION_ROW && row.components@.len() == 1
            && row.components@[0] is StringSelect && row.components@[0]->StringSelect_0.kind == TYPE_STRING_SELECT {
            let sel = row.components@[0]->StringSelect_0;
            ComponentDesc::Select(
                sel.custom_id@,
                opt_string_view(sel.placeholder),
                sel.options@.map_values(|o: SelectOption| option_desc(o)),
            )
        } else {
            ComponentDesc::Other
        },
        Component::Separator(s) => if s == (Separator { kind: TYPE_SEPARATOR, divider: true, spacing: 2 }) {
            ComponentDesc::Section
        } else {
            ComponentDesc::Other
        },
        Component::Container(_) => ComponentDesc::Other,
    }
}

pub open spec fn describe_all(cs: Seq<Component>) -> Seq<ComponentDesc> {
    cs.map_values(|c: Component| describe(c))
}

/// A row of the given buttons, described.
pub proof fn lemma_describe_buttons(buttons: Seq<Button>, row: ActionRow)
    requires
        row.kind == TYPE_ACTION_ROW,
        row.components@ == buttons.map_values(|b: Button| ActionRowChild::Button(b)),
        forall|i: int| 0 <= i < buttons.len() ==> (#[trigger] buttons[i]).kind == TYPE_BUTTON,
    ensures
        describe(Component::ActionRow(row)) == ComponentDesc::Buttons(buttons.map_values(|b: Button| button_desc(b))),
{
    assert forall|i: int| 0 <= i < row.components@.len() implies #[trigger] row.components@[i] is Button
        && row.components@[i]->Button_0.kind == TYPE_BUTTON by {
        assert(row.components@[i] == ActionRowChild::Button(buttons[i]));
    }
    assert(all_buttons(row.components@));
    assert(row_buttons(row.components@) =~= buttons.map_values(|b: Button| button_desc(b)));
}

} // verus!
