use vstd::prelude::*;

use crate::discord::components_v2::{Component, ComponentsV2Message, ContainerChild, FLAG_IS_COMPONENTS_V2};
use crate::discord::formatting::{build_dm_death_components, DmDeathContent, ACCENT_DEATH};
use crate::text::{lemma_utf8_len_concat, strings_view, utf8_fits, utf8_len};

verus! {

pub const DM_CHAR_LIMIT: usize = 2000;

/// One segment folded into the messages built so far and the message being filled:
/// empty segments are skipped; a segment joins the current message while the two fit the
/// limit together; otherwise the current message is closed and the segment starts the next
/// one, or goes out alone when it does not fit by itself.
pub open spec fn pack_step(state: (Seq<Seq<char>>, Seq<char>), seg: Seq<char>, limit: nat) -> (Seq<Seq<char>>, Seq<char>) {
    let done = state.0;
    let cur = state.1;
    if seg.len() == 0 {
        state
    } else if cur.len() == 0 {
        if utf8_len(seg) <= limit {
            (done, seg)
        } else {
            (done.push(seg), Seq::empty())
        }
    } else if utf8_len(cur + seg) <= limit {
        (done, cur + seg)
    } else if utf8_len(seg) <= limit {
        (done.push(cur), seg)
    } else {
        (done.push(cur).push(seg), Seq::empty())
    }
}

pub open spec fn pack_state(segs: Seq<Seq<char>>, limit: nat) -> (Seq<Seq<char>>, Seq<char>)
    decreases segs.len(),
{
    if segs.len() == 0 {
        (Seq::empty(), Seq::empty())
    } else {
        pack_step(pack_state(segs.drop_last(), limit), segs.last(), limit)
    }
}

/// The messages a DM is split into: segments packed greedily, in order.
pub open spec fn packed_segments(segs: Seq<Seq<char>>, limit: nat) -> Seq<Seq<char>> {
    let st = pack_state(segs, limit);
    if st.1.len() > 0 {
        st.0.push(st.1)
    } else {
        st.0
    }
}

/// All the texts, one after the other.
pub open spec fn flatten(ss: Seq<Seq<char>>) -> Seq<char>
    decreases ss.len(),
{
    if ss.len() == 0 {
        Seq::empty()
    } else {
        flatten(ss.drop_last()) + ss.last()
    }
}

/// A message either fits the limit or is one segment too long by itself.
pub open spec fn message_ok(m: Seq<char>, segs: Seq<Seq<char>>, limit: nat) -> bool {
    &&& m.len() > 0
    &&& utf8_len(m) <= limit || segs.contains(m)
}

proof fn lemma_flatten_push(ss: Seq<Seq<char>>, s: Seq<char>)
    ensures
        flatten(ss.push(s)) == flatten(ss) + s,
{
    assert(ss.push(s).drop_last() =~= ss);
}

proof fn lemma_pack_state(segs: Seq<Seq<char>>, limit: nat)
    ensures
        flatten(pack_state(segs, limit).0) + pack_state(segs, limit).1 == flatten(segs),
        forall|i: int| 0 <= i < pack_state(segs, limit).0.len() ==> message_ok(
            #[trigger] pack_state(segs, limit).0[i],
            segs,
            limit,
        ),
        pack_state(segs, limit).1.len() > 0 ==> utf8_len(pack_state(segs, limit).1) <= limit,
    decreases segs.len(),
{
    if segs.len() > 0 {
        let prev_segs = segs.drop_last();
        lemma_pack_state(prev_segs, limit);
        let prev = pack_state(prev_segs, limit);
        let seg = segs.last();
        let done = prev.0;
        let cur = prev.1;
        let st = pack_state(segs, limit);
        assert(segs =~= prev_segs.push(seg));
        assert(segs.contains(seg)) by {
            assert(segs[segs.len() - 1] == seg);
        }
        assert forall|i: int| 0 <= i < done.len() implies message_ok(#[trigger] done[i], segs, limit) by {
            assert(message_ok(done[i], prev_segs, limit));
            if prev_segs.contains(done[i]) {
                let j = choose|j: int| 0 <= j < prev_segs.len() && prev_segs[j] == done[i];
                assert(segs[j] == done[i]);
            }
        }
        lemma_flatten_push(prev_segs, seg);
        if seg.len() == 0 {
            assert(cur + seg =~= cur);
        } else if cur.len() == 0 {
            assert(flatten(done) + cur =~= flatten(done));
            lemma_flatten_push(done, seg);
            if utf8_len(seg) <= limit {
            } else {
                assert(st.0 == done.push(seg));
                assert(st.0[done.len() as int] == seg);
                assert(flatten(st.0) + st.1 =~= flatten(done) + seg);
            }
        } else if utf8_len(cur + seg) <= limit {
            assert(flatten(done) + (cur + seg) =~= flatten(done) + cur + seg);
        } else {
            lemma_flatten_push(done, cur);
            lemma_utf8_len_concat(cur, seg);
            if utf8_len(seg) <= limit {
                assert(st.0 == done.push(cur));
                assert(st.0[done.len() as int] == cur);
                assert(flatten(st.0) + st.1 =~= flatten(done) + cur + seg);
            } else {
                lemma_flatten_push(done.push(cur), seg);
                assert(st.0 == done.push(cur).push(seg));
                assert(st.0[done.len() as int] == cur);
                assert(st.0[done.len() as int + 1] == seg);
                assert(flatten(st.0) + st.1 =~= flatten(done) + cur + seg);
            }
        }
    }
}

/// Splitting a DM into messages loses, adds and reorders nothing, and every message is
/// non-empty and fits the limit unless it is a single segment too long by itself.
pub proof fn lemma_packed_segments(segs: Seq<Seq<char>>, limit: nat)
    ensures
        flatten(packed_segments(segs, limit)) == flatten(segs),
        forall|i: int| 0 <= i < packed_segments(segs, limit).len() ==> message_ok(
            #[trigger] packed_segments(segs, limit)[i],
            segs,
            limit,
        ),
{
    lemma_pack_state(segs, limit);
    let st = pack_state(segs, limit);
    if st.1.len() > 0 {
        lemma_flatten_push(st.0, st.1);
        assert forall|i: int| 0 <= i < packed_segments(segs, limit).len() implies message_ok(
            #[trigger] packed_segments(segs, limit)[i],
            segs,
            limit,
        ) by {
            if i < st.0.len() {
                assert(packed_segments(segs, limit)[i] == st.0[i]);
            }
        }
    } else {
        assert(flatten(st.0) + st.1 =~= flatten(st.0));
    }
}

/// Pack text segments into as few messages of at most `limit` UTF-8 bytes as the greedy
/// order allows; a segment longer than the limit is sent on its own.
pub fn pack_dm_segments(segments: &Vec<String>, limit: usize) -> (r: Vec<String>)
    ensures
        strings_view(r@) == packed_segments(strings_view(segments@), limit as nat),
{
    let ghost segs = strings_view(segments@);
    let mut messages: Vec<String> = Vec::new();
    let mut current = String::new();
    let mut i: usize = 0;
    while i < segments.len()
        invariant
            i <= segments@.len(),
            segs == strings_view(segments@),
            (strings_view(messages@), current@) == pack_state(segs.subrange(0, i as int), limit as nat),
        decreases segments@.len() - i,
    {
        assert(segs.subrange(0, i + 1).drop_last() =~= segs.subrange(0, i as int));
        assert(segs[i as int] == segments@[i as int]@);
        let segment = &segments[i];
        let ghost before = strings_view(messages@);
        if segment.as_str().unicode_len() == 0 {
        } else if current.as_str().unicode_len() == 0 {
            if utf8_fits(segment.as_str(), limit) {
                current = segment.clone();
            } else {
                messages.push(segment.clone());
                assert(strings_view(messages@) =~= before.push(segment@));
            }
        } else {
            let mut combined = current.clone();
            crate::text::push_str(&mut combined, segment.as_str());
            if utf8_fits(combined.as_str(), limit) {
                current = combined;
            } else {
                let mut done_cur = String::new();
                std::mem::swap(&mut done_cur, &mut current);
                messages.push(done_cur);
                assert(strings_view(messages@) =~= before.push(done_cur@));
                let ghost mid = strings_view(messages@);
                if utf8_fits(segment.as_str(), limit) {
                    current = segment.clone();
                } else {
                    messages.push(segment.clone());
                    assert(strings_view(messages@) =~= mid.push(segment@));
                }
            }
        }
        i += 1;
    }
    assert(segs.subrange(0, segments@.len() as int) =~= segs);
    if current.as_str().unicode_len() > 0 {
        let ghost before = strings_view(messages@);
        messages.push(current);
        assert(strings_view(messages@) =~= before.push(current@));
    }
    messages
}

/// The accented death box holding the notice.
pub open spec fn death_box(m: ComponentsV2Message, body: String) -> bool {
    &&& m.flags == FLAG_IS_COMPONENTS_V2
    &&& m.components@.len() == 1
    &&& m.components@[0] matches Component::Container(c)
    &&& c.accent_color == Some(ACCENT_DEATH)
    &&& !c.spoiler
    &&& c.components@.len() == 1
    &&& c.components@[0] matches ContainerChild::Text(t)
    &&& t.content == body
}

/// How a DM goes out: one components message, or plain text messages.
pub enum DmPlan {
    Components(ComponentsV2Message),
    Text(Vec<String>),
}

/// A death notice that fits one message goes out as the accented box; a longer one as
/// plain text split at the limit.
pub fn death_dm_plan(content: &DmDeathContent) -> (r: DmPlan)
    ensures
        utf8_len(content.body@) <= DM_CHAR_LIMIT ==> (r matches DmPlan::Components(m) && death_box(m, content.body)),
        utf8_len(content.body@) > DM_CHAR_LIMIT ==> (r matches DmPlan::Text(parts) && strings_view(parts@)
            == packed_segments(seq![content.body@], DM_CHAR_LIMIT as nat)),
{
    let plain = content.plain();
    if utf8_fits(plain.as_str(), DM_CHAR_LIMIT) {
        DmPlan::Components(build_dm_death_components(content))
    } else {
        let mut v: Vec<String> = Vec::new();
        v.push(plain);
        assert(strings_view(v@) =~= seq![content.body@]);
        DmPlan::Text(pack_dm_segments(&v, DM_CHAR_LIMIT))
    }
}

} // verus!
