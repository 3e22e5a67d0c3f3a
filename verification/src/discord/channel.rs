use vstd::prelude::*;

use crate::game::persistence::message_cache::{ActivityLogEntry, ActivityLogKind, MessageCache};
use crate::text::{join_with, lines, owned, push_joined, push_str, strings_view, text_lines, utf8_fits, utf8_len};

verus! {

pub const DISCORD_MESSAGE_LIMIT: usize = 2000;

/// U+2043 HYPHEN BULLET — renders as a small bullet in Discord, not a round list marker.
pub const LOG_BULLET: char = '\u{2043}';

/// Zero-width space + tab pairs (same trick as the job board header) for a slight indent.
pub const WORLD_INDENT: &'static str = "\u{200B}\t\u{200B}\t";

/// A standard entry: a bullet before its first line, the other lines below it.
pub open spec fn standard_entry_text(raw: Seq<char>) -> Seq<char> {
    seq![LOG_BULLET, ' '] + join_with(lines(raw), "\n"@)
}

/// A world entry line: indented italics, empty lines kept empty.
pub open spec fn world_line_text(line: Seq<char>) -> Seq<char> {
    if line.len() == 0 {
        Seq::empty()
    } else {
        WORLD_INDENT@ + "*"@ + line + "*"@
    }
}

pub open spec fn world_entry_text(raw: Seq<char>) -> Seq<char> {
    join_with(lines(raw).map_values(|l: Seq<char>| world_line_text(l)), "\n"@)
}

pub open spec fn entry_text(e: ActivityLogEntry) -> Seq<char> {
    match e.kind {
        ActivityLogKind::Standard => standard_entry_text(e.text@),
        ActivityLogKind::World => world_entry_text(e.text@),
    }
}

/// The activity log message: the entries, oldest first, one per line block.
pub open spec fn activity_log_text(entries: Seq<ActivityLogEntry>) -> Seq<char> {
    join_with(entries.map_values(|e: ActivityLogEntry| entry_text(e)), "\n"@)
}

pub fn format_standard_entry(raw: &str) -> (r: String)
    ensures
        r@ == standard_entry_text(raw@),
{
    let ls = text_lines(raw);
    let mut body = String::new();
    let mut i: usize = 0;
    while i < ls.len()
        invariant
            i <= ls@.len(),
            strings_view(ls@) == lines(raw@),
            body@ == join_with(lines(raw@).subrange(0, i as int), "\n"@),
        decreases ls@.len() - i,
    {
        assert(ls@[i as int]@ == lines(raw@)[i as int]);
        push_joined(&mut body, "\n", ls[i].as_str(), i == 0, Ghost(lines(raw@).subrange(0, i as int)));
        assert(lines(raw@).subrange(0, i as int).push(ls@[i as int]@) =~= lines(raw@).subrange(0, i + 1));
        i += 1;
    }
    assert(lines(raw@).subrange(0, ls@.len() as int) =~= lines(raw@));
    let mut out = String::new();
    crate::text::push_char(&mut out, LOG_BULLET);
    crate::text::push_char(&mut out, ' ');
    push_str(&mut out, body.as_str());
    assert(out@ =~= standard_entry_text(raw@));
    out
}

pub fn format_world_entry(raw: &str) -> (r: String)
    ensures
        r@ == world_entry_text(raw@),
{
    let ls = text_lines(raw);
    let ghost parts = lines(raw@).map_values(|l: Seq<char>| world_line_text(l));
    let mut out = String::new();
    let mut i: usize = 0;
    while i < ls.len()
        invariant
            i <= ls@.len(),
            strings_view(ls@) == lines(raw@),
            parts == lines(raw@).map_values(|l: Seq<char>| world_line_text(l)),
            out@ == join_with(parts.subrange(0, i as int), "\n"@),
        decreases ls@.len() - i,
    {
        assert(ls@[i as int]@ == lines(raw@)[i as int]);
        let line = &ls[i];
        let part = if line.as_str().unicode_len() == 0 {
            String::new()
        } else {
            let mut p = owned(WORLD_INDENT);
            push_str(&mut p, "*");
            push_str(&mut p, line.as_str());
            push_str(&mut p, "*");
            p
        };
        assert(part@ =~= parts[i as int]);
        push_joined(&mut out, "\n", part.as_str(), i == 0, Ghost(parts.subrange(0, i as int)));
        assert(parts.subrange(0, i as int).push(part@) =~= parts.subrange(0, i + 1));
        i += 1;
    }
    assert(parts.subrange(0, ls@.len() as int) =~= parts);
    out
}

pub fn format_log_entry(entry: &ActivityLogEntry) -> (r: String)
    ensures
        r@ == entry_text(*entry),
{
    match entry.kind {
        ActivityLogKind::Standard => format_standard_entry(entry.text.as_str()),
        ActivityLogKind::World => format_world_entry(entry.text.as_str()),
    }
}

pub fn render_activity_log(entries: &[ActivityLogEntry]) -> (r: String)
    ensures
        r@ == activity_log_text(entries@),
{
    let ghost parts = entries@.map_values(|e: ActivityLogEntry| entry_text(e));
    let mut out = String::new();
    let mut i: usize = 0;
    while i < entries.len()
        invariant
            i <= entries@.len(),
            parts == entries@.map_values(|e: ActivityLogEntry| entry_text(e)),
            out@ == join_with(parts.subrange(0, i as int), "\n"@),
        decreases entries@.len() - i,
    {
        let part = format_log_entry(&entries[i]);
        push_joined(&mut out, "\n", part.as_str(), i == 0, Ghost(parts.subrange(0, i as int)));
        assert(parts.subrange(0, i as int).push(part@) =~= parts.subrange(0, i + 1));
        i += 1;
    }
    assert(parts.subrange(0, entries@.len() as int) =~= parts);
    out
}

/// Does the log, from entry `k` on, fit one Discord message?
pub open spec fn log_fits_from(entries: Seq<ActivityLogEntry>, k: int) -> bool {
    k >= entries.len() || utf8_len(activity_log_text(entries.subrange(k, entries.len() as int))) <= DISCORD_MESSAGE_LIMIT
}

/// The first entry kept: dropping the oldest from `k` on until the rest fits (or none is
/// left).
pub open spec fn fitting_start(entries: Seq<ActivityLogEntry>, k: int) -> int
    decreases entries.len() - k,
{
    if k >= entries.len() || log_fits_from(entries, k) {
        k
    } else {
        fitting_start(entries, k + 1)
    }
}

/// The first entry kept by trimming: at most `max_lines` newest entries, fewer while the
/// rendered log exceeds Discord's message limit.
pub open spec fn trim_start(entries: Seq<ActivityLogEntry>, max_lines: int) -> int {
    fitting_start(entries, if entries.len() > max_lines { entries.len() - max_lines } else { 0 })
}

proof fn lemma_fitting_start(entries: Seq<ActivityLogEntry>, k: int)
    requires
        0 <= k,
    ensures
        k <= fitting_start(entries, k),
        k <= entries.len() ==> fitting_start(entries, k) <= entries.len(),
    decreases entries.len() - k,
{
    if !(k >= entries.len() || log_fits_from(entries, k)) {
        lemma_fitting_start(entries, k + 1);
    }
}

/// Keep the newest `max_lines` entries, then drop the oldest until the log fits one
/// Discord message.
pub fn trim_activity_log_entries(entries: &mut Vec<ActivityLogEntry>, max_lines: usize)
    ensures
        final(entries)@ == old(entries)@.subrange(trim_start(old(entries)@, max_lines as int), old(entries)@.len() as int),
{
    let ghost orig = entries@;
    let ghost start0: int = if orig.len() > max_lines { orig.len() - max_lines } else { 0 };
    let ghost mut dropped: int = 0;
    while entries.len() > max_lines
        invariant
            0 <= dropped <= start0,
            start0 <= orig.len(),
            entries@ == orig.subrange(dropped, orig.len() as int),
            entries@.len() >= max_lines ==> dropped == orig.len() - entries@.len(),
            entries@.len() <= max_lines ==> dropped == start0,
            start0 == (if orig.len() > max_lines { orig.len() - max_lines } else { 0 }),
        decreases entries@.len(),
    {
        let ghost before = entries@;
        entries.remove(0);
        assert(entries@ =~= before.drop_first());
        proof {
            dropped = dropped + 1;
        }
        assert(entries@ =~= orig.subrange(dropped, orig.len() as int));
    }
    proof {
        lemma_fitting_start(orig, start0);
    }
    let mut done = false;
    while entries.len() > 0 && !done
        invariant
            0 <= start0 <= dropped <= orig.len(),
            entries@ == orig.subrange(dropped, orig.len() as int),
            fitting_start(orig, dropped) == fitting_start(orig, start0),
            done ==> fitting_start(orig, dropped) == dropped,
        decreases entries@.len(), (if done { 0int } else { 1int }),
    {
        let body = render_activity_log(entries.as_slice());
        if utf8_fits(body.as_str(), DISCORD_MESSAGE_LIMIT) {
            done = true;
        } else {
            let ghost before = entries@;
            let ghost d0 = dropped;
            assert(d0 < orig.len());
            entries.remove(0);
            assert(entries@ =~= before.drop_first());
            assert(before.drop_first() =~= orig.subrange(d0 + 1, orig.len() as int));
            proof {
                dropped = d0 + 1;
            }
        }
    }
    assert(fitting_start(orig, start0) == dropped);
}

/// Append an entry to the cached activity log and trim it.
pub fn append_activity_entry(cache: &mut MessageCache, max_lines: usize, kind: ActivityLogKind, content: &str)
    ensures
        exists|e: ActivityLogEntry| {
            let all = #[trigger] old(cache).activity_log_entries@.push(e);
            &&& e.kind == kind
            &&& e.text@ == content@
            &&& final(cache).activity_log_entries@ == all.subrange(trim_start(all, max_lines as int), all.len() as int)
        },
        *final(cache) == (MessageCache { activity_log_entries: final(cache).activity_log_entries, ..*old(cache) }),
{
    let text = owned(content);
    let e = ActivityLogEntry { kind, text };
    let ghost ge = e;
    cache.activity_log_entries.push(e);
    trim_activity_log_entries(&mut cache.activity_log_entries, max_lines);
    assert(ge.kind == kind && ge.text@ == content@);
}

/// The activity log message body, when there are entries to show.
pub fn activity_log_body(cache: &MessageCache) -> (r: Option<String>)
    ensures
        match r {
            Some(b) => cache.activity_log_entries@.len() > 0 && b@ == activity_log_text(cache.activity_log_entries@),
            None => cache.activity_log_entries@.len() == 0,
        },
{
    if cache.activity_log_entries.len() == 0 {
        None
    } else {
        Some(render_activity_log(cache.activity_log_entries.as_slice()))
    }
}

} // verus!
