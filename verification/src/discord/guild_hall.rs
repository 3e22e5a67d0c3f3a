use vstd::prelude::*;

use crate::discord::components_v2::{
    button_desc, describe, describe_all, lemma_describe_buttons, ActionRow, ActionRowChild,
    Button, ButtonDesc, Component, ComponentDesc, ComponentsV2Message, Container, ContainerChild,
    Separator, TextDisplay, FLAG_IS_COMPONENTS_V2, STYLE_PRIMARY, STYLE_SECONDARY, TYPE_CONTAINER,
    TYPE_SEPARATOR, TYPE_TEXT_DISPLAY,
};
use crate::discord::formatting::{subtext_lines, subtext_text};
use crate::game::domain::board::{has_active_state, Board, BoardQuest, BoardQuestView};
use crate::game::domain::player::Player;
use crate::game::guild_status::GuildHallStatus;
use crate::game::persistence::message_cache::{JobSlot, JobSlotView, MessageCache};
use crate::text::{dec, join_with, owned, push_dec, push_joined, push_str, str_eq, strings_view};

verus! {

/// Accent colors for job-slot containers (RGB integers): empty slots and taken regular
/// jobs, open jobs, open story jobs, taken story jobs.
pub const ACCENT_INACTIVE: u32 = 0x4E5058;

pub const ACCENT_JOB_OPEN: u32 = 0x57F287;

pub const ACCENT_STORY_JOB: u32 = 0xE67E22;

pub const ACCENT_STORY_JOB_INACTIVE: u32 = 0x6B5A4E;

/// A job slot's text: the posting (as subtext once someone runs it), or a placeholder.
pub open spec fn job_slot_text(quest: Option<BoardQuestView>) -> Seq<char> {
    match quest {
        Some(q) => {
            let g = q.generated;
            let line = "**"@ + g.quest_title@ + "** - *"@ + g.quest_giver@ + "* | $"@ + dec(g.reward as nat);
            if has_active_state(q.states) {
                "-# "@ + line + "\n"@ + subtext_text(g.description@)
            } else {
                line + "\n"@ + g.description@
            }
        },
        None => "*Nothing posted here*"@,
    }
}

pub open spec fn opt_quest_view(quest: Option<&BoardQuest>) -> Option<BoardQuestView> {
    match quest {
        Some(q) => Some(q@),
        None => None,
    }
}

pub fn format_job_slot(quest: Option<&BoardQuest>) -> (r: String)
    ensures
        r@ == job_slot_text(opt_quest_view(quest)),
{
    match quest {
        Some(q) => {
            let mut line = owned("**");
            push_str(&mut line, q.generated.quest_title.as_str());
            push_str(&mut line, "** - *");
            push_str(&mut line, q.generated.quest_giver.as_str());
            push_str(&mut line, "* | $");
            push_dec(&mut line, q.generated.reward as u64);
            if q.has_active() {
                let mut s = owned("-# ");
                push_str(&mut s, line.as_str());
                push_str(&mut s, "\n");
                let desc = subtext_lines(q.generated.description.as_str());
                push_str(&mut s, desc.as_str());
                s
            } else {
                push_str(&mut line, "\n");
                push_str(&mut line, q.generated.description.as_str());
                line
            }
        },
        None => owned("*Nothing posted here*"),
    }
}

pub open spec fn job_slot_accent_spec(q: BoardQuestView) -> u32 {
    if q.story_index is Some {
        if has_active_state(q.states) {
            ACCENT_STORY_JOB_INACTIVE
        } else {
            ACCENT_STORY_JOB
        }
    } else if has_active_state(q.states) {
        ACCENT_INACTIVE
    } else {
        ACCENT_JOB_OPEN
    }
}

/// Orange for story jobs, green for open jobs, muted once someone runs them.
pub fn job_slot_accent(q: &BoardQuest) -> (r: u32)
    ensures
        r == job_slot_accent_spec(q@),
{
    if q.is_story() {
        if q.has_active() {
            ACCENT_STORY_JOB_INACTIVE
        } else {
            ACCENT_STORY_JOB
        }
    } else if q.has_active() {
        ACCENT_INACTIVE
    } else {
        ACCENT_JOB_OPEN
    }
}

pub open spec fn board_header_text(filled: usize, max_jobs: usize) -> Seq<char> {
    "\u{200B}\n\u{200B}\t\u{200B}\t**CHUD GUILD JOB BOARD** *"@ + dec(filled as nat) + "/"@ + dec(max_jobs as nat)
        + " posted*\n\u{200B}"@
}

/// The board's title line with how many of the slots are posted.
pub fn build_job_board_header(filled: usize, max_jobs: usize) -> (r: ComponentsV2Message)
    ensures
        r.flags == FLAG_IS_COMPONENTS_V2,
        describe_all(r.components@) == seq![ComponentDesc::Text(board_header_text(filled, max_jobs))],
{
    let mut s = owned("\u{200B}\n\u{200B}\t\u{200B}\t**CHUD GUILD JOB BOARD** *");
    push_dec(&mut s, filled as u64);
    push_str(&mut s, "/");
    push_dec(&mut s, max_jobs as u64);
    push_str(&mut s, " posted*\n\u{200B}");
    let mut v: Vec<Component> = Vec::new();
    v.push(Component::Text(TextDisplay::new(s)));
    assert(describe_all(v@) =~= seq![ComponentDesc::Text(board_header_text(filled, max_jobs))]);
    ComponentsV2Message::channel(v)
}

/// The buttons of a posted job: Take while nobody runs it, and Scout.
pub open spec fn job_buttons(q: BoardQuestView) -> Seq<ButtonDesc> {
    let scout = ButtonDesc { custom_id: "scout:"@ + dec(q.id as nat), label: "Scout"@, style: STYLE_SECONDARY };
    if has_active_state(q.states) {
        seq![scout]
    } else {
        seq![ButtonDesc { custom_id: "take:"@ + dec(q.id as nat), label: "Take"@, style: STYLE_PRIMARY }, scout]
    }
}

/// A job slot's message: one accented box with the slot's text and, for a posted job, its
/// buttons.
pub open spec fn job_slot_message_ok(m: ComponentsV2Message, quest: Option<BoardQuestView>) -> bool {
    &&& m.flags == FLAG_IS_COMPONENTS_V2
    &&& m.components@.len() == 1
    &&& m.components@[0] matches Component::Container(k)
    &&& k.kind == TYPE_CONTAINER
    &&& !k.spoiler
    &&& k.components@.len() >= 1
    &&& k.components@[0] matches ContainerChild::Text(t)
    &&& t.kind == TYPE_TEXT_DISPLAY && t.content@ == job_slot_text(quest)
    &&& match quest {
        None => k.accent_color == Some(ACCENT_INACTIVE) && k.components@.len() == 1,
        Some(q) => {
            &&& k.accent_color == Some(job_slot_accent_spec(q))
            &&& k.components@.len() == 2
            &&& k.components@[1] matches ContainerChild::ActionRow(row)
            &&& describe(Component::ActionRow(row)) == ComponentDesc::Buttons(job_buttons(q))
        },
    }
}

fn id_text(prefix: &str, id: u32) -> (r: String)
    ensures
        r@ == prefix@ + dec(id as nat),
{
    let mut s = owned(prefix);
    push_dec(&mut s, id as u64);
    s
}

pub fn build_job_slot(quest: Option<&BoardQuest>) -> (r: ComponentsV2Message)
    ensures
        job_slot_message_ok(r, opt_quest_view(quest)),
{
    let mut inner: Vec<ContainerChild> = Vec::new();
    inner.push(ContainerChild::Text(TextDisplay::new(format_job_slot(quest))));
    let accent = match quest {
        None => ACCENT_INACTIVE,
        Some(q) => {
            let mut buttons: Vec<Button> = Vec::new();
            if !q.has_active() {
                buttons.push(Button::primary(id_text("take:", q.id), owned("Take")));
            }
            buttons.push(Button::secondary(id_text("scout:", q.id), owned("Scout")));
            let ghost bs = buttons@;
            let row = ActionRow::buttons(buttons);
            proof {
                lemma_describe_buttons(bs, row);
                assert(bs.map_values(|b: Button| button_desc(b)) =~= job_buttons(q@));
            }
            inner.push(ContainerChild::ActionRow(row));
            job_slot_accent(q)
        },
    };
    let mut v: Vec<Component> = Vec::new();
    v.push(Component::Container(Container::with_accent(accent, inner)));
    ComponentsV2Message::channel(v)
}

/// Index of the first slot at or after `i` with no job, that also has a posted message
/// when `posted`.
pub open spec fn first_open_slot_from(slots: Seq<JobSlotView>, posted: bool, i: int) -> Option<int>
    decreases slots.len() - i,
{
    if i < 0 || i >= slots.len() {
        None
    } else if slots[i].job_id is None && (!posted || slots[i].message_id is Some) {
        Some(i)
    } else {
        first_open_slot_from(slots, posted, i + 1)
    }
}

/// First open slot, preferring placeholders that already have a Discord message.
pub open spec fn first_empty(slots: Seq<JobSlotView>) -> Option<int> {
    match first_open_slot_from(slots, true, 0) {
        Some(i) => Some(i),
        None => first_open_slot_from(slots, false, 0),
    }
}

pub open spec fn slot_views(slots: Seq<JobSlot>) -> Seq<JobSlotView> {
    slots.map_values(|s: JobSlot| s@)
}

proof fn lemma_first_open_slot(slots: Seq<JobSlotView>, posted: bool, i: int)
    requires
        0 <= i,
    ensures
        match first_open_slot_from(slots, posted, i) {
            Some(k) => i <= k < slots.len() && slots[k].job_id is None && (!posted || slots[k].message_id is Some),
            None => forall|k: int| i <= k < slots.len() ==> !(slots[k].job_id is None && (!posted || slots[k].message_id is Some)),
        },
    decreases slots.len() - i,
{
    if i < slots.len() {
        lemma_first_open_slot(slots, posted, i + 1);
    }
}

fn first_open_slot(slots: &Vec<JobSlot>, posted: bool) -> (r: Option<usize>)
    ensures
        r == (match first_open_slot_from(slot_views(slots@), posted, 0) {
            Some(k) => Some(k as usize),
            None => None::<usize>,
        }),
{
    let ghost views = slot_views(slots@);
    let mut i: usize = 0;
    while i < slots.len()
        invariant
            i <= slots@.len(),
            views == slot_views(slots@),
            first_open_slot_from(views, posted, 0) == first_open_slot_from(views, posted, i as int),
        decreases slots@.len() - i,
    {
        assert(views[i as int] == slots@[i as int]@);
        if slots[i].job_id.is_none() && (!posted || slots[i].message_id.is_some()) {
            return Some(i);
        }
        i += 1;
    }
    None
}

pub fn first_empty_slot(slots: &Vec<JobSlot>) -> (r: Option<usize>)
    ensures
        r == (match first_empty(slot_views(slots@)) {
            Some(k) => Some(k as usize),
            None => None::<usize>,
        }),
{
    match first_open_slot(slots, true) {
        Some(i) => Some(i),
        None => first_open_slot(slots, false),
    }
}

/// A status section: its header in italics, then the names as subtext.
pub open spec fn status_section_text(header: Seq<char>, names: Seq<Seq<char>>) -> Seq<char> {
    "*"@ + header + "*\n-# "@ + join_with(names, ", "@)
}

pub fn status_section(header: &str, names: &Vec<String>) -> (r: String)
    ensures
        r@ == status_section_text(header@, strings_view(names@)),
{
    let ghost parts = strings_view(names@);
    let mut joined = String::new();
    let mut i: usize = 0;
    while i < names.len()
        invariant
            i <= names@.len(),
            parts == strings_view(names@),
            joined@ == join_with(parts.subrange(0, i as int), ", "@),
        decreases names@.len() - i,
    {
        assert(names@[i as int]@ == parts[i as int]);
        push_joined(&mut joined, ", ", names[i].as_str(), i == 0, Ghost(parts.subrange(0, i as int)));
        assert(parts.subrange(0, i as int).push(names@[i as int]@) =~= parts.subrange(0, i + 1));
        i += 1;
    }
    assert(parts.subrange(0, names@.len() as int) =~= parts);
    let mut s = owned("*");
    push_str(&mut s, header);
    push_str(&mut s, "*\n-# ");
    push_str(&mut s, joined.as_str());
    s
}

/// The headers shown above the status sections.
pub struct StatusSectionHeaders {
    pub idle: Option<String>,
    pub all_busy: Option<String>,
    pub no_chuds: Option<String>,
    pub hospital: Option<String>,
}

/// Freshly rendered header lines (`idleing`, `all_busy`, `no_chuds`, `hospital_waiting`),
/// used for a section that becomes visible again.
pub struct StatusHeaderChoices {
    pub idle: String,
    pub all_busy: String,
    pub no_chuds: String,
    pub hospital: String,
}

/// The cached header of a section after a render: kept while the section shows (taking
/// `fresh` when there was none), dropped while it does not.
pub open spec fn header_after(shown: bool, cached: Option<String>, fresh: String) -> Option<String> {
    if shown {
        match cached {
            Some(h) => Some(h),
            None => Some(fresh),
        }
    } else {
        None
    }
}

fn resolve_header(shown: bool, cached: &mut Option<String>, fresh: &String) -> (r: (Option<String>, bool))
    ensures
        *final(cached) == header_after(shown, *old(cached), *fresh),
        r.0 == *final(cached),
        r.1 == (*final(cached) != *old(cached)),
{
    if shown {
        let changed = cached.is_none();
        if changed {
            *cached = Some(fresh.clone());
        }
        let shown_header = match cached {
            Some(h) => Some(h.clone()),
            None => None,
        };
        (shown_header, changed)
    } else {
        let changed = cached.is_some();
        *cached = None;
        (None, changed)
    }
}

/// Picks or reuses the cached section headers. A new line (from `fresh`) is taken only when
/// a section becomes visible again after having no contents; a hidden section's header is
/// dropped. The flag tells whether the cache changed.
pub fn resolve_status_headers(status: &GuildHallStatus, cache: &mut MessageCache, fresh: &StatusHeaderChoices) -> (r: (
    StatusSectionHeaders,
    bool,
))
    ensures
        final(cache).status_idle_header == header_after(status.idle_names@.len() > 0, old(cache).status_idle_header, fresh.idle),
        final(cache).status_all_busy_header == header_after(status.show_all_busy, old(cache).status_all_busy_header, fresh.all_busy),
        final(cache).status_no_chuds_header == header_after(status.show_no_chuds, old(cache).status_no_chuds_header, fresh.no_chuds),
        final(cache).status_hospital_header == header_after(status.hospital_names@.len() > 0, old(cache).status_hospital_header, fresh.hospital),
        *final(cache) == (MessageCache {
            status_idle_header: final(cache).status_idle_header,
            status_all_busy_header: final(cache).status_all_busy_header,
            status_no_chuds_header: final(cache).status_no_chuds_header,
            status_hospital_header: final(cache).status_hospital_header,
            ..*old(cache)
        }),
        r.0.idle == final(cache).status_idle_header,
        r.0.all_busy == final(cache).status_all_busy_header,
        r.0.no_chuds == final(cache).status_no_chuds_header,
        r.0.hospital == final(cache).status_hospital_header,
        r.1 == (*final(cache) != *old(cache)),
{
    let (idle, d1) = resolve_header(status.idle_names.len() > 0, &mut cache.status_idle_header, &fresh.idle);
    let (all_busy, d2) = resolve_header(status.show_all_busy, &mut cache.status_all_busy_header, &fresh.all_busy);
    let (no_chuds, d3) = resolve_header(status.show_no_chuds, &mut cache.status_no_chuds_header, &fresh.no_chuds);
    let (hospital, d4) = resolve_header(status.hospital_names.len() > 0, &mut cache.status_hospital_header, &fresh.hospital);
    (StatusSectionHeaders { idle, all_busy, no_chuds, hospital }, d1 || d2 || d3 || d4)
}

pub open spec fn opt_view(o: Option<String>) -> Seq<char> {
    match o {
        Some(s) => s@,
        None => Seq::empty(),
    }
}

/// The first part of the status box: who idles, else that everyone is busy, else that
/// there are no chuds, else a spacer.
pub open spec fn status_first_text(status: GuildHallStatus, headers: StatusSectionHeaders) -> Seq<char> {
    if status.idle_names@.len() > 0 {
        status_section_text(opt_view(headers.idle), strings_view(status.idle_names@))
    } else if status.show_all_busy {
        "*"@ + opt_view(headers.all_busy) + "*"@
    } else if status.show_no_chuds {
        "*"@ + opt_view(headers.no_chuds) + "*"@
    } else {
        "\u{200B}\n\u{200B}"@
    }
}

pub open spec fn is_text_of(c: ContainerChild, text: Seq<char>) -> bool {
    c matches ContainerChild::Text(t) && t.kind == TYPE_TEXT_DISPLAY && t.content@ == text
}

/// Each shown section needs its header.
pub open spec fn headers_cover(status: GuildHallStatus, headers: StatusSectionHeaders) -> bool {
    &&& status.idle_names@.len() > 0 ==> headers.idle is Some
    &&& status.idle_names@.len() == 0 && status.show_all_busy ==> headers.all_busy is Some
    &&& status.idle_names@.len() == 0 && !status.show_all_busy && status.show_no_chuds ==> headers.no_chuds is Some
    &&& status.hospital_names@.len() > 0 ==> headers.hospital is Some
}

/// The guild-hall status box: the first part, then, when someone is in the hospital, a
/// divider and the hospital section.
pub fn build_status_message(status: &GuildHallStatus, headers: &StatusSectionHeaders) -> (r: ComponentsV2Message)
    requires
        headers_cover(*status, *headers),
    ensures
        r.flags == FLAG_IS_COMPONENTS_V2,
        r.components@.len() == 1,
        r.components@[0] matches Component::Container(k) && k.kind == TYPE_CONTAINER && k.accent_color is None
            && !k.spoiler && is_text_of(k.components@[0], status_first_text(*status, *headers)) && if status.hospital_names@.len() > 0 {
            k.components@.len() == 3 && k.components@[1] == ContainerChild::Separator(
                Separator { kind: TYPE_SEPARATOR, divider: true, spacing: 2 },
            ) && is_text_of(k.components@[2], status_section_text(opt_view(headers.hospital), strings_view(status.hospital_names@)))
        } else {
            k.components@.len() == 1
        },
{
    let mut inner: Vec<ContainerChild> = Vec::new();
    if status.idle_names.len() > 0 {
        let h = headers.idle.as_ref().unwrap();
        inner.push(ContainerChild::Text(TextDisplay::new(status_section(h.as_str(), &status.idle_names))));
    } else if status.show_all_busy {
        let h = headers.all_busy.as_ref().unwrap();
        let mut s = owned("*");
        push_str(&mut s, h.as_str());
        push_str(&mut s, "*");
        inner.push(ContainerChild::Text(TextDisplay::new(s)));
    } else if status.show_no_chuds {
        let h = headers.no_chuds.as_ref().unwrap();
        let mut s = owned("*");
        push_str(&mut s, h.as_str());
        push_str(&mut s, "*");
        inner.push(ContainerChild::Text(TextDisplay::new(s)));
    } else {
        inner.push(ContainerChild::Text(TextDisplay::new(owned("\u{200B}\n\u{200B}"))));
    }
    if status.hospital_names.len() > 0 {
        inner.push(ContainerChild::Separator(Separator::section()));
        let h = headers.hospital.as_ref().unwrap();
        inner.push(ContainerChild::Text(TextDisplay::new(status_section(h.as_str(), &status.hospital_names))));
    }
    ComponentsV2Message::channel_box(inner, None)
}

/// A slot with no message, no content and no job.
pub open spec fn blank_slot() -> JobSlotView {
    JobSlotView { message_id: None, content: Seq::empty(), job_id: None }
}

/// The slots, with blank ones added up to `n`.
pub open spec fn padded_slots(slots: Seq<JobSlotView>, n: int) -> Seq<JobSlotView> {
    if slots.len() >= n {
        slots
    } else {
        slots + Seq::new((n - slots.len()) as nat, |i: int| blank_slot())
    }
}

pub open spec fn on_board(qs: Seq<BoardQuestView>, id: u32) -> bool {
    exists|i: int| 0 <= i < qs.len() && #[trigger] qs[i].id == id
}

/// Does the slot hold a job that left the board?
pub open spec fn stale_slot(s: JobSlotView, qs: Seq<BoardQuestView>) -> bool {
    s.job_id matches Some(j) && !on_board(qs, j)
}

/// The slots with jobs that left the board emptied.
pub open spec fn cleared_slots(slots: Seq<JobSlotView>, qs: Seq<BoardQuestView>) -> Seq<JobSlotView> {
    slots.map_values(|s: JobSlotView| if stale_slot(s, qs) {
        JobSlotView { job_id: None, ..s }
    } else {
        s
    })
}

pub open spec fn slotted(slots: Seq<JobSlotView>, id: u32) -> bool {
    exists|i: int| 0 <= i < slots.len() && #[trigger] slots[i].job_id == Some(id)
}

/// Does the quest get a new slot: it has none yet and one is open?
pub open spec fn newly_placed(slots: Seq<JobSlotView>, id: u32) -> bool {
    !slotted(slots, id) && first_empty(slots) is Some
}

/// A quest without a slot goes into the first open one, if any.
pub open spec fn place_quest(slots: Seq<JobSlotView>, id: u32) -> Seq<JobSlotView> {
    if newly_placed(slots, id) {
        let i = first_empty(slots).unwrap();
        slots.update(i, JobSlotView { job_id: Some(id), ..slots[i] })
    } else {
        slots
    }
}

/// The slots after placing the first `k` quests of the board in order.
pub open spec fn place_quests(slots: Seq<JobSlotView>, qs: Seq<BoardQuestView>, k: int) -> Seq<JobSlotView>
    decreases k,
{
    if k <= 0 {
        slots
    } else {
        place_quest(place_quests(slots, qs, k - 1), qs[k - 1].id)
    }
}

/// Slots padded to `n`, stale jobs emptied, and every quest of the board placed in order.
pub open spec fn slot_layout(slots: Seq<JobSlotView>, qs: Seq<BoardQuestView>, n: int) -> Seq<JobSlotView> {
    place_quests(cleared_slots(padded_slots(slots, n), qs), qs, qs.len() as int)
}

/// Whether laying out the slots changed anything: a slot was added, a stale job emptied, or
/// a quest newly placed.
pub open spec fn layout_changes(slots: Seq<JobSlotView>, qs: Seq<BoardQuestView>, n: int) -> bool {
    let c = cleared_slots(padded_slots(slots, n), qs);
    ||| slots.len() < n
    ||| exists|i: int| 0 <= i < slots.len() && stale_slot(#[trigger] slots[i], qs)
    ||| exists|k: int| 0 <= k < qs.len() && newly_placed(#[trigger] place_quests(c, qs, k), qs[k].id)
}

proof fn lemma_first_empty(slots: Seq<JobSlotView>)
    ensures
        first_empty(slots) matches Some(i) ==> 0 <= i < slots.len() && slots[i].job_id is None,
{
    lemma_first_open_slot(slots, true, 0);
    lemma_first_open_slot(slots, false, 0);
}

/// Placing quests keeps the number of slots and each slot's message, and only fills slots
/// with quests of the board.
proof fn lemma_place_quests(slots: Seq<JobSlotView>, qs: Seq<BoardQuestView>, k: int)
    requires
        0 <= k <= qs.len(),
    ensures
        place_quests(slots, qs, k).len() == slots.len(),
        forall|i: int| 0 <= i < slots.len() ==> {
            let t = #[trigger] place_quests(slots, qs, k)[i];
            &&& t.message_id == slots[i].message_id
            &&& t.content == slots[i].content
            &&& (t.job_id != slots[i].job_id ==> slots[i].job_id is None && (t.job_id matches Some(j) && on_board(qs, j)))
        },
    decreases k,
{
    if k > 0 {
        lemma_place_quests(slots, qs, k - 1);
        let prev = place_quests(slots, qs, k - 1);
        lemma_first_empty(prev);
        assert(qs[k - 1].id == qs[k - 1].id);
        assert(on_board(qs, qs[k - 1].id));
    }
}

/// Laying out the slots: the slot count reaches `n`, messages and contents stay with their
/// slots, new slots are blank, and every job a slot shows is on the board.
pub proof fn lemma_slot_layout(slots: Seq<JobSlotView>, qs: Seq<BoardQuestView>, n: int)
    ensures
        slot_layout(slots, qs, n).len() == if slots.len() >= n { slots.len() as int } else { n },
        forall|i: int| 0 <= i < slots.len() ==> {
            let t = #[trigger] slot_layout(slots, qs, n)[i];
            t.message_id == slots[i].message_id && t.content == slots[i].content
        },
        forall|i: int| slots.len() <= i < slot_layout(slots, qs, n).len() ==> {
            let t = #[trigger] slot_layout(slots, qs, n)[i];
            t.message_id is None && t.content.len() == 0
        },
        forall|i: int| 0 <= i < slot_layout(slots, qs, n).len() ==> ((#[trigger] slot_layout(slots, qs, n)[i]).job_id matches Some(j)
            ==> on_board(qs, j)),
{
    let p = padded_slots(slots, n);
    let c = cleared_slots(p, qs);
    lemma_place_quests(c, qs, qs.len() as int);
    assert forall|i: int| 0 <= i < slots.len() implies p[i] == slots[i] by {}
    assert forall|i: int| 0 <= i < c.len() implies ((#[trigger] c[i]).job_id matches Some(j) ==> on_board(qs, j)) by {}
}

/// No two slots show the same job.
pub open spec fn slot_jobs_distinct(slots: Seq<JobSlotView>) -> bool {
    forall|i: int, j: int| 0 <= i < slots.len() && 0 <= j < slots.len() && i != j && (#[trigger] slots[i]).job_id is Some
        ==> (#[trigger] slots[j]).job_id != slots[i].job_id
}

proof fn lemma_place_quest_keeps(slots: Seq<JobSlotView>, qs: Seq<BoardQuestView>, id: u32)
    requires
        slot_jobs_distinct(slots),
        forall|i: int| 0 <= i < slots.len() ==> ((#[trigger] slots[i]).job_id matches Some(j) ==> on_board(qs, j)),
        on_board(qs, id),
        qs.len() <= slots.len(),
    ensures
        slot_jobs_distinct(place_quest(slots, id)),
        forall|i: int| 0 <= i < slots.len() ==> ((#[trigger] place_quest(slots, id)[i]).job_id matches Some(j) ==> on_board(qs, j)),
        slotted(place_quest(slots, id), id),
        forall|j: u32| slotted(slots, j) ==> slotted(place_quest(slots, id), j),
        place_quest(slots, id).len() == slots.len(),
{
    lemma_first_empty(slots);
    if !slotted(slots, id) {
        if first_empty(slots) is None {
            // Every slot holds a distinct job of the board other than `id`: too many.
            lemma_first_open_slot(slots, false, 0);
            let jids = slots.map_values(|x: JobSlotView| x.job_id.unwrap());
            let qids = qs.map_values(|q: BoardQuestView| q.id);
            assert(jids.no_duplicates()) by {
                assert forall|a: int, b: int| 0 <= a < jids.len() && 0 <= b < jids.len() && a != b implies jids[a] != jids[b] by {
                    assert(slots[a].job_id is Some);
                    assert(slots[b].job_id is Some);
                }
            }
            jids.unique_seq_to_set();
            qids.lemma_cardinality_of_set();
            assert(jids.to_set().subset_of(qids.to_set().remove(id))) by {
                assert forall|x: u32| jids.to_set().contains(x) implies qids.to_set().remove(id).contains(x) by {
                    let a = choose|a: int| 0 <= a < jids.len() && jids[a] == x;
                    assert(slots[a].job_id is Some);
                    assert(slots[a].job_id == Some(x));
                    assert(on_board(qs, x));
                    let b = choose|b: int| 0 <= b < qs.len() && #[trigger] qs[b].id == x;
                    assert(qids[b] == x);
                    assert(x != id);
                }
            }
            let b = choose|b: int| 0 <= b < qs.len() && #[trigger] qs[b].id == id;
            assert(qids[b] == id);
            assert(qids.to_set().contains(id));
            vstd::set_lib::lemma_len_subset(jids.to_set(), qids.to_set().remove(id));
            assert(false);
        }
        let i = first_empty(slots).unwrap();
        let t = place_quest(slots, id);
        assert(t[i].job_id == Some(id));
        assert forall|a: int, c: int| 0 <= a < t.len() && 0 <= c < t.len() && a != c && (#[trigger] t[a]).job_id is Some
            implies (#[trigger] t[c]).job_id != t[a].job_id by {
            if a == i {
                if t[c].job_id == Some(id) {
                    assert(slots[c].job_id == Some(id));
                }
            } else if c == i {
                assert(t[a] == slots[a]);
                if t[a].job_id == Some(id) {
                    assert(slots[a].job_id == Some(id));
                }
            } else {
                assert(t[a] == slots[a] && t[c] == slots[c]);
            }
        }
        assert forall|j: u32| slotted(slots, j) implies slotted(t, j) by {
            let a = choose|a: int| 0 <= a < slots.len() && #[trigger] slots[a].job_id == Some(j);
            assert(a != i);
            assert(t[a] == slots[a]);
        }
    }
}

proof fn lemma_place_quests_all(slots: Seq<JobSlotView>, qs: Seq<BoardQuestView>, k: int)
    requires
        0 <= k <= qs.len(),
        slot_jobs_distinct(slots),
        forall|i: int| 0 <= i < slots.len() ==> ((#[trigger] slots[i]).job_id matches Some(j) ==> on_board(qs, j)),
        qs.len() <= slots.len(),
    ensures
        slot_jobs_distinct(place_quests(slots, qs, k)),
        place_quests(slots, qs, k).len() == slots.len(),
        forall|i: int| 0 <= i < slots.len() ==> ((#[trigger] place_quests(slots, qs, k)[i]).job_id matches Some(j) ==> on_board(qs, j)),
        forall|t: int| 0 <= t < k ==> slotted(place_quests(slots, qs, k), #[trigger] qs[t].id),
    decreases k,
{
    if k > 0 {
        lemma_place_quests_all(slots, qs, k - 1);
        let prev = place_quests(slots, qs, k - 1);
        assert(on_board(qs, qs[k - 1].id));
        lemma_place_quest_keeps(prev, qs, qs[k - 1].id);
        assert forall|t: int| 0 <= t < k implies slotted(place_quests(slots, qs, k), #[trigger] qs[t].id) by {
            if t < k - 1 {
                assert(slotted(prev, qs[t].id));
            }
        }
    }
}

/// When the board fits in the slots (no more quests than slots, counting the blank ones
/// added) and no two slots showed the same job, laying out the slots shows each quest of
/// the board in exactly one slot.
pub proof fn lemma_slot_layout_shows_each(slots: Seq<JobSlotView>, qs: Seq<BoardQuestView>, n: int)
    requires
        slot_jobs_distinct(slots),
        qs.len() <= slots.len() || qs.len() <= n,
    ensures
        slot_jobs_distinct(slot_layout(slots, qs, n)),
        forall|k: int| 0 <= k < qs.len() ==> slotted(slot_layout(slots, qs, n), #[trigger] qs[k].id),
        forall|k: int, i: int, j: int|
            0 <= k < qs.len() && 0 <= i < slot_layout(slots, qs, n).len() && 0 <= j < slot_layout(slots, qs, n).len()
                && (#[trigger] slot_layout(slots, qs, n)[i]).job_id == Some(#[trigger] qs[k].id)
                && (#[trigger] slot_layout(slots, qs, n)[j]).job_id == Some(qs[k].id) ==> i == j,
{
    let p = padded_slots(slots, n);
    let c = cleared_slots(p, qs);
    assert forall|a: int, b: int| 0 <= a < p.len() && 0 <= b < p.len() && a != b && (#[trigger] p[a]).job_id is Some
        implies (#[trigger] p[b]).job_id != p[a].job_id by {
        if a < slots.len() && b < slots.len() {
            assert(p[a] == slots[a] && p[b] == slots[b]);
        } else if a < slots.len() {
            assert(p[b] == blank_slot());
        } else {
            assert(p[a] == blank_slot());
        }
    }
    assert(slot_jobs_distinct(c));
    assert forall|i: int| 0 <= i < c.len() implies ((#[trigger] c[i]).job_id matches Some(j) ==> on_board(qs, j)) by {}
    lemma_place_quests_all(c, qs, qs.len() as int);
}

fn board_has_quest(board: &Board, id: u32) -> (r: bool)
    ensures
        r == on_board(board.quests_view(), id),
{
    let ghost qs = board.quests_view();
    let mut i: usize = 0;
    while i < board.quests.len()
        invariant
            i <= board.quests@.len(),
            qs == board.quests_view(),
            forall|j: int| 0 <= j < i ==> qs[j].id != id,
        decreases board.quests@.len() - i,
    {
        assert(qs[i as int] == board.quests@[i as int]@);
        if board.quests[i].id == id {
            assert(qs[i as int].id == id);
            return true;
        }
        i += 1;
    }
    false
}

fn slots_hold(slots: &Vec<JobSlot>, id: u32) -> (r: bool)
    ensures
        r == slotted(slot_views(slots@), id),
{
    let ghost views = slot_views(slots@);
    let mut i: usize = 0;
    while i < slots.len()
        invariant
            i <= slots@.len(),
            views == slot_views(slots@),
            forall|j: int| 0 <= j < i ==> views[j].job_id != Some(id),
        decreases slots@.len() - i,
    {
        assert(views[i as int] == slots@[i as int]@);
        if slots[i].job_id == Some(id) {
            return true;
        }
        i += 1;
    }
    false
}

/// Lays out the persistent job slots for the board: blank slots are added up to
/// `max_jobs`, slots showing a job that left the board are emptied, and each quest not yet
/// shown takes the first open slot (one that already has a message first). Answers whether
/// anything changed.
pub fn assign_job_slots(slots: &mut Vec<JobSlot>, board: &Board, max_jobs: usize) -> (r: bool)
    ensures
        slot_views(final(slots)@) == slot_layout(slot_views(old(slots)@), board.quests_view(), max_jobs as int),
        r == layout_changes(slot_views(old(slots)@), board.quests_view(), max_jobs as int),
{
    let ghost orig = slot_views(slots@);
    let ghost qs = board.quests_view();
    let ghost n = max_jobs as int;
    let mut grew = false;
    while slots.len() < max_jobs
        invariant
            orig.len() <= slots@.len(),
            slots@.len() <= (if orig.len() >= n { orig.len() as int } else { n }),
            slot_views(slots@) == orig + Seq::new((slots@.len() - orig.len()) as nat, |i: int| blank_slot()),
            grew == (slots@.len() > orig.len()),
            n == max_jobs,
        decreases max_jobs - slots@.len(),
    {
        let ghost m = slots@.len() - orig.len();
        let ghost before = slot_views(slots@);
        let b = JobSlot { message_id: None, content: String::new(), job_id: None };
        assert(b@ == blank_slot());
        slots.push(b);
        grew = true;
        assert(slot_views(slots@) =~= before.push(blank_slot()));
        assert(Seq::new((m + 1) as nat, |i: int| blank_slot()) =~= Seq::new(m as nat, |i: int| blank_slot()).push(blank_slot()));
        assert(slot_views(slots@) =~= orig + Seq::new((slots@.len() - orig.len()) as nat, |i: int| blank_slot()));
    }
    let ghost p = padded_slots(orig, n);
    assert(slot_views(slots@) =~= p);
    assert(grew == (orig.len() < n));

    let mut stale = false;
    let mut i: usize = 0;
    while i < slots.len()
        invariant
            i <= slots@.len(),
            p.len() == slots@.len(),
            qs == board.quests_view(),
            forall|j: int| 0 <= j < i ==> slot_views(slots@)[j] == cleared_slots(p, qs)[j],
            forall|j: int| i <= j < slots@.len() ==> slot_views(slots@)[j] == p[j],
            stale == exists|j: int| 0 <= j < i && stale_slot(#[trigger] p[j], qs),
        decreases slots@.len() - i,
    {
        assert(slot_views(slots@)[i as int] == slots@[i as int]@);
        match slots[i].job_id {
            Some(jid) => {
                if !board_has_quest(board, jid) {
                    let mut s = slots.remove(i);
                    s.job_id = None;
                    slots.insert(i, s);
                    stale = true;
                    assert(stale_slot(p[i as int], qs));
                } else {
                    assert(!stale_slot(p[i as int], qs));
                }
            },
            None => {
                assert(!stale_slot(p[i as int], qs));
            },
        }
        assert(slot_views(slots@)[i as int] == cleared_slots(p, qs)[i as int]);
        i += 1;
    }
    let ghost c = cleared_slots(p, qs);
    assert(slot_views(slots@) =~= c);
    assert(stale == exists|j: int| 0 <= j < orig.len() && stale_slot(#[trigger] orig[j], qs)) by {
        if stale {
            let j = choose|j: int| 0 <= j < p.len() && stale_slot(#[trigger] p[j], qs);
            if j >= orig.len() {
                assert(p[j] == blank_slot());
            } else {
                assert(p[j] == orig[j]);
            }
        }
        if exists|j: int| 0 <= j < orig.len() && stale_slot(#[trigger] orig[j], qs) {
            let j = choose|j: int| 0 <= j < orig.len() && stale_slot(#[trigger] orig[j], qs);
            assert(p[j] == orig[j]);
        }
    }

    let mut placed = false;
    let mut k: usize = 0;
    while k < board.quests.len()
        invariant
            k <= board.quests@.len(),
            qs == board.quests_view(),
            slot_views(slots@) == place_quests(c, qs, k as int),
            placed == exists|j: int| 0 <= j < k && newly_placed(#[trigger] place_quests(c, qs, j), qs[j].id),
        decreases board.quests@.len() - k,
    {
        let id = board.quests[k].id;
        assert(qs[k as int].id == id);
        let ghost before = slot_views(slots@);
        if !slots_hold(slots, id) {
            let len = slots.len();
            match first_empty_slot(slots) {
                Some(e) => {
                    proof {
                        lemma_first_empty(before);
                        assert(first_empty(before) is Some);
                        let k = first_empty(before).unwrap();
                        assert(0 <= k < before.len());
                        assert(before.len() == len);
                        assert(e as int == k);
                    }
                    let ghost raw = slots@;
                    assert(before[e as int] == raw[e as int]@);
                    assert(newly_placed(before, id));
                    let mut s = slots.remove(e);
                    s.job_id = Some(id);
                    assert(s@ == JobSlotView { job_id: Some(id), ..before[e as int] });
                    slots.insert(e, s);
                    placed = true;
                    assert(slots@ =~= raw.update(e as int, s));
                    assert(first_empty(before) == Some(e as int));
                    assert(slot_views(raw.update(e as int, s)) =~= before.update(e as int, s@));
                    assert(slot_views(slots@) =~= place_quest(before, id));
                },
                None => {},
            }
        }
        assert(slot_views(slots@) == place_quests(c, qs, k + 1));
        k += 1;
    }
    grew || stale || placed
}

/// Is `vals[i]` strictly above every other value?
pub open spec fn sole_top(vals: Seq<int>, i: int) -> bool {
    0 <= i < vals.len() && forall|j: int| 0 <= j < vals.len() && j != i ==> #[trigger] vals[j] < vals[i]
}

/// The position of the one value above all others, if there is one.
pub open spec fn sole_top_index(vals: Seq<int>) -> Option<int> {
    if exists|i: int| sole_top(vals, i) {
        Some(choose|i: int| sole_top(vals, i))
    } else {
        None
    }
}

proof fn lemma_sole_top_unique(vals: Seq<int>, i: int, k: int)
    requires
        sole_top(vals, i),
        sole_top(vals, k),
    ensures
        i == k,
{
    if i != k {
        assert(vals[k] < vals[i]);
        assert(vals[i] < vals[k]);
    }
}

fn sole_top_position(vals: &Vec<u32>) -> (r: Option<usize>)
    ensures
        r == (match sole_top_index(vals@.map_values(|v: u32| v as int)) {
            Some(i) => Some(i as usize),
            None => None::<usize>,
        }),
{
    let ghost xs = vals@.map_values(|v: u32| v as int);
    if vals.len() == 0 {
        assert(!exists|i: int| sole_top(xs, i));
        return None;
    }
    let mut best: usize = 0;
    let mut ties: bool = false;
    let mut i: usize = 1;
    while i < vals.len()
        invariant
            0 < i <= vals@.len(),
            best < i,
            xs == vals@.map_values(|v: u32| v as int),
            forall|j: int| 0 <= j < i ==> vals@[j] <= vals@[best as int],
            ties == exists|j: int| 0 <= j < i && j != best && vals@[j] == vals@[best as int],
        decreases vals@.len() - i,
    {
        if vals[i] > vals[best] {
            best = i;
            ties = false;
        } else if vals[i] == vals[best] {
            ties = true;
        }
        i += 1;
    }
    if ties {
        proof {
            assert forall|k: int| !sole_top(xs, k) by {
                if sole_top(xs, k) {
                    let j = choose|j: int| 0 <= j < vals@.len() && j != best && vals@[j] == vals@[best as int];
                    if k == best as int {
                        assert(xs[j] < xs[k]);
                    } else {
                        assert(xs[best as int] < xs[k]);
                    }
                }
            }
        }
        None
    } else {
        proof {
            assert forall|j: int| 0 <= j < xs.len() && j != best implies #[trigger] xs[j] < xs[best as int] by {
                assert(vals@[j] <= vals@[best as int]);
            }
            assert(sole_top(xs, best as int));
            lemma_sole_top_unique(xs, best as int, choose|k: int| sole_top(xs, k));
        }
        Some(best)
    }
}

/// The stats the chudlerboard ranks.
#[derive(Debug, Clone, Copy, PartialEq, Eq, Structural)]
pub enum LeaderStat {
    Strength,
    Smarts,
    Stealth,
    Experience,
}

pub open spec fn stat_value(p: Player, stat: LeaderStat) -> int {
    let c = p.chud.unwrap();
    match stat {
        LeaderStat::Strength => c.strength as int,
        LeaderStat::Smarts => c.smarts as int,
        LeaderStat::Stealth => c.stealth as int,
        LeaderStat::Experience => c.experience as int,
    }
}

pub open spec fn stat_adjective(stat: LeaderStat) -> Seq<char> {
    match stat {
        LeaderStat::Strength => "strongest"@,
        LeaderStat::Smarts => "smartest"@,
        LeaderStat::Stealth => "sneakiest"@,
        LeaderStat::Experience => "expert"@,
    }
}

pub open spec fn all_have_chuds(players: Seq<Player>) -> bool {
    forall|i: int| 0 <= i < players.len() ==> (#[trigger] players[i]).chud is Some
}

pub open spec fn cash_values(players: Seq<Player>) -> Seq<int> {
    players.map_values(|p: Player| p.cash as int)
}

pub open spec fn stat_values(players: Seq<Player>, stat: LeaderStat) -> Seq<int> {
    players.map_values(|p: Player| stat_value(p, stat))
}

/// The player with strictly the most cash, if one has.
pub fn sole_richest(players: &Vec<Player>) -> (r: Option<usize>)
    ensures
        r == (match sole_top_index(cash_values(players@)) {
            Some(i) => Some(i as usize),
            None => None::<usize>,
        }),
{
    let mut vals: Vec<u32> = Vec::new();
    let mut i: usize = 0;
    while i < players.len()
        invariant
            i <= players@.len(),
            vals@.map_values(|v: u32| v as int) == cash_values(players@).subrange(0, i as int),
        decreases players@.len() - i,
    {
        let ghost pre = vals@;
        vals.push(players[i].cash);
        assert(vals@.map_values(|v: u32| v as int) =~= pre.map_values(|v: u32| v as int).push(players@[i as int].cash as int));
        assert(cash_values(players@).subrange(0, i + 1) =~= cash_values(players@).subrange(0, i as int).push(players@[i as int].cash as int));
        i += 1;
    }
    assert(cash_values(players@).subrange(0, i as int) =~= cash_values(players@));
    sole_top_position(&vals)
}

/// The name of the chud strictly ahead of all others in `stat`, if one is.
pub fn sole_leader(players: &Vec<Player>, stat: LeaderStat) -> (r: Option<String>)
    requires
        all_have_chuds(players@),
    ensures
        match sole_top_index(stat_values(players@, stat)) {
            Some(i) => r matches Some(name) && name@ == players@[i].chud.unwrap().name@,
            None => r is None,
        },
{
    let mut vals: Vec<u32> = Vec::new();
    let mut i: usize = 0;
    while i < players.len()
        invariant
            i <= players@.len(),
            all_have_chuds(players@),
            vals@.map_values(|v: u32| v as int) == stat_values(players@, stat).subrange(0, i as int),
        decreases players@.len() - i,
    {
        let c = players[i].chud_ref();
        let v: u8 = match stat {
            LeaderStat::Strength => c.strength,
            LeaderStat::Smarts => c.smarts,
            LeaderStat::Stealth => c.stealth,
            LeaderStat::Experience => c.experience,
        };
        let ghost pre = vals@;
        vals.push(v as u32);
        assert(v as int == stat_value(players@[i as int], stat));
        assert(vals@.map_values(|v: u32| v as int) =~= pre.map_values(|v: u32| v as int).push(v as int));
        assert(stat_values(players@, stat).subrange(0, i + 1) =~= stat_values(players@, stat).subrange(0, i as int).push(v as int));
        i += 1;
    }
    assert(stat_values(players@, stat).subrange(0, i as int) =~= stat_values(players@, stat));
    match sole_top_position(&vals) {
        Some(k) => {
            proof {
                let xs = stat_values(players@, stat);
                assert(sole_top(xs, choose|j: int| sole_top(xs, j)));
            }
            Some(players[k].chud_ref().name.clone())
        },
        None => None,
    }
}

/// The stat lines of the chudlerboard: one per stat with a sole leader, in order.
pub open spec fn leader_line(players: Seq<Player>, stat: LeaderStat) -> Seq<Seq<char>> {
    match sole_top_index(stat_values(players, stat)) {
        Some(i) => seq![players[i].chud.unwrap().name@ + " is the "@ + stat_adjective(stat)],
        None => Seq::empty(),
    }
}

pub open spec fn chudlerboard_lines(players: Seq<Player>, richest_name: Option<Seq<char>>) -> Seq<Seq<char>> {
    (match richest_name {
        Some(n) => seq![n + " is the richest chudlord"@],
        None => Seq::empty(),
    }) + leader_line(players, LeaderStat::Strength) + leader_line(players, LeaderStat::Smarts)
        + leader_line(players, LeaderStat::Stealth) + leader_line(players, LeaderStat::Experience)
}

pub open spec fn chudlerboard_text(players: Seq<Player>, richest_name: Option<Seq<char>>) -> Seq<char> {
    let lines = chudlerboard_lines(players, richest_name);
    if players.len() == 0 || lines.len() == 0 {
        Seq::empty()
    } else {
        "```
----- Chudlerboard -----
"@ + join_with(lines, "
"@) + "
```"@
    }
}

/// The chudlerboard code block: who is the richest (`richest_name`, the display name of
/// the `sole_richest` player, when there is one) and who leads each stat outright. Empty
/// without players or without any leader.
pub fn format_chudlerboard(players: &Vec<Player>, richest_name: Option<&str>) -> (r: String)
    requires
        all_have_chuds(players@),
        (richest_name is Some) == (sole_top_index(cash_values(players@)) is Some),
    ensures
        r@ == chudlerboard_text(
            players@,
            match richest_name {
                Some(n) => Some(n@),
                None => None,
            },
        ),
{
    if players.len() == 0 {
        return String::new();
    }
    let ghost rn = match richest_name {
        Some(n) => Some(n@),
        None => None,
    };
    let ghost want = chudlerboard_lines(players@, rn);
    let mut lines: Vec<String> = Vec::new();
    match richest_name {
        Some(n) => {
            let mut l = owned(n);
            push_str(&mut l, " is the richest chudlord");
            lines.push(l);
        },
        None => {},
    }
    let ghost head = strings_view(lines@);
    assert(head =~= match rn {
        Some(n) => seq![n + " is the richest chudlord"@],
        None => Seq::<Seq<char>>::empty(),
    });
    push_leader_line(&mut lines, players, LeaderStat::Strength, "strongest");
    push_leader_line(&mut lines, players, LeaderStat::Smarts, "smartest");
    push_leader_line(&mut lines, players, LeaderStat::Stealth, "sneakiest");
    push_leader_line(&mut lines, players, LeaderStat::Experience, "expert");
    assert(strings_view(lines@) =~= want);
    if lines.len() == 0 {
        return String::new();
    }
    let mut joined = String::new();
    let mut i: usize = 0;
    while i < lines.len()
        invariant
            i <= lines@.len(),
            strings_view(lines@) == want,
            joined@ == join_with(want.subrange(0, i as int), "\n"@),
        decreases lines@.len() - i,
    {
        assert(lines@[i as int]@ == want[i as int]);
        push_joined(&mut joined, "\n", lines[i].as_str(), i == 0, Ghost(want.subrange(0, i as int)));
        assert(want.subrange(0, i as int).push(want[i as int]) =~= want.subrange(0, i + 1));
        i += 1;
    }
    assert(want.subrange(0, lines@.len() as int) =~= want);
    let mut s = owned("```\n----- Chudlerboard -----\n");
    push_str(&mut s, joined.as_str());
    push_str(&mut s, "\n```");
    s
}

fn push_leader_line(lines: &mut Vec<String>, players: &Vec<Player>, stat: LeaderStat, adjective: &str)
    requires
        all_have_chuds(players@),
        adjective@ == stat_adjective(stat),
    ensures
        strings_view(final(lines)@) == strings_view(old(lines)@) + leader_line(players@, stat),
{
    match sole_leader(players, stat) {
        Some(name) => {
            let mut l = name;
            push_str(&mut l, " is the ");
            push_str(&mut l, adjective);
            lines.push(l);
            assert(strings_view(lines@) =~= strings_view(old(lines)@) + leader_line(players@, stat));
        },
        None => {
            assert(strings_view(lines@) =~= strings_view(old(lines)@) + leader_line(players@, stat));
        },
    }
}

/// What to do with a persistent channel message.
#[derive(Debug, Clone, Copy, PartialEq, Eq, Structural)]
pub enum SyncAction {
    /// None exists yet: post one.
    Post,
    /// Its last sent content differs: edit the message with this id.
    Edit(u64),
    /// It is up to date.
    Keep,
}

/// Post a message when none exists, edit it when the content last sent (`sent`) differs
/// from the fingerprint of the new one (`expected`), else keep it.
pub fn sync_action(message_id: Option<u64>, sent: &str, expected: &str) -> (r: SyncAction)
    ensures
        r == (match message_id {
            None => SyncAction::Post,
            Some(id) => if sent@ == expected@ {
                SyncAction::Keep
            } else {
                SyncAction::Edit(id)
            },
        }),
{
    match message_id {
        None => SyncAction::Post,
        Some(id) => if str_eq(sent, expected) {
            SyncAction::Keep
        } else {
            SyncAction::Edit(id)
        },
    }
}

} // verus!
