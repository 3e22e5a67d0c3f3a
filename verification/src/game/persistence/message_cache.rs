use vstd::prelude::*;

use crate::game::domain::item::clone_opt_string;

verus! {

/// How an activity log line is rendered when synced to Discord.
#[derive(Debug, Clone, Copy, PartialEq, Eq, Structural)]
pub enum ActivityLogKind {
    /// U+2043 hyphen bullet prefix.
    Standard,
    /// Italic text, no bullet (world / ambient narration).
    World,
}

impl Default for ActivityLogKind {
    fn default() -> (r: Self)
        ensures
            r == ActivityLogKind::Standard,
    {
        ActivityLogKind::Standard
    }
}

#[derive(Debug)]
pub struct ActivityLogEntry {
    pub kind: ActivityLogKind,
    pub text: String,
}

/// State for a single persistent job-slot Discord message.
#[derive(Debug, Default)]
pub struct JobSlot {
    /// Discord message ID for this slot's persistent post (None until first posted).
    pub message_id: Option<u64>,
    /// Last content string sent to this slot's Discord message.
    pub content: String,
    /// The quest ID currently shown in this slot (None = empty / "Nothing posted here").
    pub job_id: Option<u32>,
}

/// A job slot seen through its text.
pub struct JobSlotView {
    pub message_id: Option<u64>,
    pub content: Seq<char>,
    pub job_id: Option<u32>,
}

impl View for JobSlot {
    type V = JobSlotView;

    open spec fn view(&self) -> JobSlotView {
        JobSlotView { message_id: self.message_id, content: self.content@, job_id: self.job_id }
    }
}

impl Clone for JobSlot {
    fn clone(&self) -> (r: Self)
        ensures
            r == *self,
    {
        JobSlot { message_id: self.message_id, content: self.content.clone(), job_id: self.job_id }
    }
}

#[derive(Debug, Default)]
pub struct MessageCache {
    /// Persistent job-slot state: one entry per slot. Each slot tracks its Discord message
    /// ID, last-sent content, and the quest ID currently assigned to it (None = empty).
    pub slots: Vec<JobSlot>,
    /// Discord message ID of the persistent job board header message.
    pub header_message_id: Option<u64>,
    /// Last content string sent to the job board header message.
    pub job_board_header: String,
    /// Discord message ID of the persistent guild-hall status area below job slots.
    pub status_message_id: Option<u64>,
    /// Last content fingerprint sent to the status message.
    pub status_content: String,
    /// Cached random header for the idle roster section (cleared when the section is empty).
    pub status_idle_header: Option<String>,
    /// Cached random header for the all-busy section (cleared when the section is empty).
    pub status_all_busy_header: Option<String>,
    /// Cached random header for the no-chuds section (cleared when chuds exist again).
    pub status_no_chuds_header: Option<String>,
    /// Cached random header for the hospital roster section (cleared when the section is empty).
    pub status_hospital_header: Option<String>,
    /// Discord message ID of the persistent merchant area below guild status.
    pub merchant_message_id: Option<u64>,
    /// Last content fingerprint sent to the merchant message.
    pub merchant_content: String,
    /// Cached visiting announcement for the current merchant visit (cleared when no visit).
    pub merchant_visit_text: Option<String>,
    /// Identity of the merchant being announced (`index:name`), used to invalidate the cache.
    pub merchant_visit_identity: Option<String>,
    /// Discord message ID of the single attract/complete phase-screen message.
    pub phase_screen_message_id: Option<u64>,
    /// Last content fingerprint sent to the phase-screen message.
    pub phase_screen_content: String,
    /// Discord message ID of the persistent activity log below the board.
    pub activity_log_message_id: Option<u64>,
    /// Activity log entries (kind controls bullet vs italic rendering on sync).
    pub activity_log_entries: Vec<ActivityLogEntry>,
}

fn clone_slots(slots: &Vec<JobSlot>) -> (r: Vec<JobSlot>)
    ensures
        r@ == slots@,
{
    let mut out: Vec<JobSlot> = Vec::new();
    let mut i: usize = 0;
    while i < slots.len()
        invariant
            i <= slots@.len(),
            out@ == slots@.subrange(0, i as int),
        decreases slots@.len() - i,
    {
        out.push(slots[i].clone());
        i += 1;
        assert(out@ =~= slots@.subrange(0, i as int));
    }
    assert(slots@.subrange(0, i as int) =~= slots@);
    out
}

/// Copy job-board UI fields from a working cache into the on-disk cache without
/// clobbering activity log, merchant, or phase-screen state updated concurrently.
pub fn merge_board_ui_cache(from: &MessageCache, into: &mut MessageCache)
    ensures
        final(into).slots@ == from.slots@,
        final(into).header_message_id == from.header_message_id,
        final(into).job_board_header == from.job_board_header,
        final(into).status_message_id == from.status_message_id,
        final(into).status_content == from.status_content,
        final(into).status_idle_header == from.status_idle_header,
        final(into).status_all_busy_header == from.status_all_busy_header,
        final(into).status_no_chuds_header == from.status_no_chuds_header,
        final(into).status_hospital_header == from.status_hospital_header,
        final(into).merchant_message_id == old(into).merchant_message_id,
        final(into).merchant_content == old(into).merchant_content,
        final(into).merchant_visit_text == old(into).merchant_visit_text,
        final(into).merchant_visit_identity == old(into).merchant_visit_identity,
        final(into).phase_screen_message_id == old(into).phase_screen_message_id,
        final(into).phase_screen_content == old(into).phase_screen_content,
        final(into).activity_log_message_id == old(into).activity_log_message_id,
        final(into).activity_log_entries == old(into).activity_log_entries,
{
    into.slots = clone_slots(&from.slots);
    into.header_message_id = from.header_message_id;
    into.job_board_header = from.job_board_header.clone();
    into.status_message_id = from.status_message_id;
    into.status_content = from.status_content.clone();
    into.status_idle_header = clone_opt_string(&from.status_idle_header);
    into.status_all_busy_header = clone_opt_string(&from.status_all_busy_header);
    into.status_no_chuds_header = clone_opt_string(&from.status_no_chuds_header);
    into.status_hospital_header = clone_opt_string(&from.status_hospital_header);
}

/// The slots' message ids, labelled `slot`, in order.
pub open spec fn slot_ids(slots: Seq<JobSlot>) -> Seq<(Seq<char>, u64)>
    decreases slots.len(),
{
    if slots.len() == 0 {
        Seq::empty()
    } else {
        let prev = slot_ids(slots.drop_last());
        match slots.last().message_id {
            Some(id) => prev.push(("slot"@, id)),
            None => prev,
        }
    }
}

pub open spec fn labelled(label: Seq<char>, id: Option<u64>) -> Seq<(Seq<char>, u64)> {
    match id {
        Some(i) => seq![(label, i)],
        None => Seq::empty(),
    }
}

/// Every persistent channel post the cache tracks: header, status, merchant, activity log
/// and phase screen, then the job slots.
pub open spec fn persistent_ids(cache: MessageCache) -> Seq<(Seq<char>, u64)> {
    labelled("header"@, cache.header_message_id) + labelled("status"@, cache.status_message_id)
        + labelled("merchant"@, cache.merchant_message_id) + labelled(
        "activity_log"@,
        cache.activity_log_message_id,
    ) + labelled("phase_screen"@, cache.phase_screen_message_id) + slot_ids(cache.slots@)
}

pub open spec fn labels_view(v: Seq<(&'static str, u64)>) -> Seq<(Seq<char>, u64)> {
    v.map_values(|p: (&'static str, u64)| (p.0@, p.1))
}

fn push_labelled(v: &mut Vec<(&'static str, u64)>, label: &'static str, id: Option<u64>)
    ensures
        labels_view(final(v)@) == labels_view(old(v)@) + labelled(label@, id),
{
    match id {
        Some(i) => {
            v.push((label, i));
            assert(labels_view(v@) =~= labels_view(old(v)@) + labelled(label@, id));
        },
        None => {
            assert(labels_view(v@) =~= labels_view(old(v)@) + labelled(label@, id));
        },
    }
}

/// Discord message IDs for every persistent channel post tracked in cache.
pub fn persistent_message_ids(cache: &MessageCache) -> (r: Vec<(&'static str, u64)>)
    ensures
        labels_view(r@) == persistent_ids(*cache),
{
    let mut message_ids: Vec<(&'static str, u64)> = Vec::new();
    assert(labels_view(message_ids@) =~= Seq::<(Seq<char>, u64)>::empty());
    push_labelled(&mut message_ids, "header", cache.header_message_id);
    push_labelled(&mut message_ids, "status", cache.status_message_id);
    push_labelled(&mut message_ids, "merchant", cache.merchant_message_id);
    push_labelled(&mut message_ids, "activity_log", cache.activity_log_message_id);
    push_labelled(&mut message_ids, "phase_screen", cache.phase_screen_message_id);
    let ghost head = labels_view(message_ids@);
    let mut i: usize = 0;
    while i < cache.slots.len()
        invariant
            i <= cache.slots@.len(),
            labels_view(message_ids@) == head + slot_ids(cache.slots@.subrange(0, i as int)),
        decreases cache.slots@.len() - i,
    {
        assert(cache.slots@.subrange(0, i + 1).drop_last() =~= cache.slots@.subrange(0, i as int));
        let ghost before = labels_view(message_ids@);
        match cache.slots[i].message_id {
            Some(id) => {
                message_ids.push(("slot", id));
                assert(labels_view(message_ids@) =~= before.push(("slot"@, id)));
            },
            None => {},
        }
        i += 1;
    }
    assert(cache.slots@.subrange(0, i as int) =~= cache.slots@);
    assert(labels_view(message_ids@) =~= persistent_ids(*cache));
    message_ids
}

/// Copy merchant UI fields from a working cache into the on-disk cache.
pub fn merge_merchant_ui_cache(from: &MessageCache, into: &mut MessageCache)
    ensures
        final(into).merchant_message_id == from.merchant_message_id,
        final(into).merchant_content == from.merchant_content,
        final(into).merchant_visit_text == from.merchant_visit_text,
        final(into).merchant_visit_identity == from.merchant_visit_identity,
        final(into).slots == old(into).slots,
        final(into).header_message_id == old(into).header_message_id,
        final(into).job_board_header == old(into).job_board_header,
        final(into).status_message_id == old(into).status_message_id,
        final(into).status_content == old(into).status_content,
        final(into).status_idle_header == old(into).status_idle_header,
        final(into).status_all_busy_header == old(into).status_all_busy_header,
        final(into).status_no_chuds_header == old(into).status_no_chuds_header,
        final(into).status_hospital_header == old(into).status_hospital_header,
        final(into).phase_screen_message_id == old(into).phase_screen_message_id,
        final(into).phase_screen_content == old(into).phase_screen_content,
        final(into).activity_log_message_id == old(into).activity_log_message_id,
        final(into).activity_log_entries == old(into).activity_log_entries,
{
    into.merchant_message_id = from.merchant_message_id;
    into.merchant_content = from.merchant_content.clone();
    into.merchant_visit_text = clone_opt_string(&from.merchant_visit_text);
    into.merchant_visit_identity = clone_opt_string(&from.merchant_visit_identity);
}

} // verus!
