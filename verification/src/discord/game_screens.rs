use vstd::prelude::*;

use crate::discord::components_v2::{
    describe_all, Component, ComponentDesc, ComponentsV2Message, Container, ContainerChild,
    TextDisplay, FLAG_IS_COMPONENTS_V2, TYPE_CONTAINER, TYPE_TEXT_DISPLAY,
};
use crate::discord::formatting::{format_player_stats_block, stats_block_text, PlayerStatsBlockOptions};
use crate::discord::guild_hall::all_have_chuds;
use crate::discord::report_dm::{pack_dm_segments, packed_segments, DM_CHAR_LIMIT};
use crate::game::domain::episode_stats::{join_lines, post_game_lines, story_recap, EpisodeStats};
use crate::game::domain::player::Player;
use crate::game::persistence::item_registry::ItemRegistry;
use crate::text::{
    ascii_lower, ascii_lowercase, dec, dec_int, join_with, lemma_lex_total, lemma_lex_trans, lex_le, owned, push_dec, push_int,
    push_joined, push_str, sort_strings, sorted_strings, str_le, strings_view, utf8_fits, utf8_len,
};

verus! {

pub open spec fn chud_names(players: Seq<Player>) -> Seq<Seq<char>> {
    players.map_values(|p: Player| p.chud.unwrap().name@)
}

/// The names of every chud in the game, in ascending order.
pub fn living_chud_names(players: &Vec<Player>) -> (r: Vec<String>)
    requires
        all_have_chuds(players@),
    ensures
        sorted_strings(strings_view(r@)),
        strings_view(r@).to_multiset() == chud_names(players@).to_multiset(),
{
    let mut names: Vec<String> = Vec::new();
    let mut i: usize = 0;
    while i < players.len()
        invariant
            i <= players@.len(),
            all_have_chuds(players@),
            strings_view(names@) == chud_names(players@).subrange(0, i as int),
        decreases players@.len() - i,
    {
        let ghost pre = strings_view(names@);
        let n = players[i].chud_ref().name.clone();
        names.push(n);
        assert(strings_view(names@) =~= pre.push(players@[i as int].chud.unwrap().name@));
        assert(chud_names(players@).subrange(0, i + 1) =~= chud_names(players@).subrange(0, i as int).push(
            players@[i as int].chud.unwrap().name@,
        ));
        i += 1;
    }
    assert(chud_names(players@).subrange(0, i as int) =~= chud_names(players@));
    sort_strings(names)
}

/// The attract screen's text: the story's title, when the game starts, how to join, and
/// the roster under its header.
pub open spec fn attract_text(title: Seq<char>, game_start_at: Option<i64>, names: Seq<Seq<char>>, list_header: Seq<char>) -> Seq<char> {
    let when = match game_start_at {
        Some(ts) => "<t:"@ + dec_int(ts as int) + ":R>"@,
        None => "`starting soon`"@,
    };
    let roster = if names.len() == 0 {
        "-# *nobody yet*"@
    } else {
        "-# \u{2043} "@ + join_with(names, ", "@)
    };
    "# "@ + title + "\n"@ + when + "\nType `/new_chud` to make your chud and join\n"@ + list_header + "\n"@ + roster
}

/// The attract screen: `title` is the story line's name, `names` the roster and
/// `list_header` the rendered roster header line.
pub fn build_attract_message(title: &str, game_start_at: Option<i64>, names: &Vec<String>, list_header: &str) -> (r: ComponentsV2Message)
    ensures
        r.flags == FLAG_IS_COMPONENTS_V2,
        describe_all(r.components@) == seq![
            ComponentDesc::Text(attract_text(title@, game_start_at, strings_view(names@), list_header@)),
        ],
{
    let mut body = owned("# ");
    push_str(&mut body, title);
    push_str(&mut body, "\n");
    match game_start_at {
        Some(ts) => {
            push_str(&mut body, "<t:");
            push_int(&mut body, ts);
            push_str(&mut body, ":R>");
        },
        None => {
            push_str(&mut body, "`starting soon`");
        },
    }
    push_str(&mut body, "\nType `/new_chud` to make your chud and join\n");
    push_str(&mut body, list_header);
    push_str(&mut body, "\n");
    if names.len() == 0 {
        push_str(&mut body, "-# *nobody yet*");
    } else {
        let ghost parts = strings_view(names@);
        let mut joined = String::new();
        let mut i: usize = 0;
        while i < names.len()
            invariant
                i <= names@.len(),
                parts == strings_view(names@),
                joined@ == join_with(parts.subrange(0, i as int), ", "@),
            decreases names@.len() - i,
        {
            assert(names@[i as int]@ == parts[i as int]);
            push_joined(&mut joined, ", ", names[i].as_str(), i == 0, Ghost(parts.subrange(0, i as int)));
            assert(parts.subrange(0, i as int).push(parts[i as int]) =~= parts.subrange(0, i + 1));
            i += 1;
        }
        assert(parts.subrange(0, names@.len() as int) =~= parts);
        push_str(&mut body, "-# \u{2043} ");
        push_str(&mut body, joined.as_str());
    }
    let ghost want = attract_text(title@, game_start_at, strings_view(names@), list_header@);
    assert(body@ =~= want);
    let mut v: Vec<Component> = Vec::new();
    v.push(Component::Text(TextDisplay::new(body)));
    assert(describe_all(v@) =~= seq![ComponentDesc::Text(want)]);
    ComponentsV2Message::channel(v)
}

/// The complete screen's header: the story's title, the recap of its beats (when any),
/// the days taken, and the post-game records (when any).
pub open spec fn complete_header_text(title: Seq<char>, story_count: nat, total_ticks: u32, stats: EpisodeStats) -> Seq<char> {
    let recap = story_recap(stats.story.beats@, story_count);
    let post = post_game_lines(stats);
    "# "@ + title + " Complete!\n"@ + (if recap.len() > 0 {
        recap + "\n"@
    } else {
        Seq::empty()
    }) + "Days taken: "@ + dec(total_ticks as nat) + (if post.len() > 0 {
        "\n\n"@ + join_lines(post)
    } else {
        Seq::empty()
    })
}

pub fn build_complete_header(title: &str, story_count: usize, total_ticks: u32, stats: &EpisodeStats) -> (r: String)
    requires
        stats.wf(),
    ensures
        r@ == complete_header_text(title@, story_count as nat, total_ticks, *stats),
{
    let mut body = owned("# ");
    push_str(&mut body, title);
    push_str(&mut body, " Complete!\n");
    let recap = stats.format_story_recap(story_count);
    if recap.as_str().unicode_len() > 0 {
        push_str(&mut body, recap.as_str());
        push_str(&mut body, "\n");
    }
    push_str(&mut body, "Days taken: ");
    push_dec(&mut body, total_ticks as u64);
    let post = stats.format_post_game_lines();
    if post.len() > 0 {
        push_str(&mut body, "\n\n");
        let ghost lines = strings_view(post@);
        let mut joined = String::new();
        let mut i: usize = 0;
        while i < post.len()
            invariant
                i <= post@.len(),
                lines == strings_view(post@),
                joined@ == join_lines(lines.subrange(0, i as int)),
            decreases post@.len() - i,
        {
            assert(post@[i as int]@ == lines[i as int]);
            crate::game::domain::episode_stats::push_line(&mut joined, post[i].as_str(), i == 0, Ghost(lines.subrange(0, i as int)));
            assert(lines.subrange(0, i as int).push(lines[i as int]) =~= lines.subrange(0, i + 1));
            i += 1;
        }
        assert(lines.subrange(0, post@.len() as int) =~= lines);
        push_str(&mut body, joined.as_str());
    }
    body
}

/// A box holding one text.
pub open spec fn is_text_box(c: Component, text: String) -> bool {
    c matches Component::Container(k) && k.kind == TYPE_CONTAINER && k.accent_color is None && !k.spoiler
        && k.components@.len() == 1 && k.components@[0] == ContainerChild::Text(TextDisplay { kind: TYPE_TEXT_DISPLAY, content: text })
}

/// The complete screen in one message: the header, then, when there are chuds, a title and
/// a box per chud.
pub open spec fn rich_complete_ok(m: ComponentsV2Message, header: Seq<char>, blocks: Seq<String>) -> bool {
    &&& m.flags == FLAG_IS_COMPONENTS_V2
    &&& m.components@.len() == if blocks.len() == 0 { 1 } else { blocks.len() + 2 }
    &&& describe_all(m.components@)[0] == ComponentDesc::Text(header)
    &&& blocks.len() > 0 ==> describe_all(m.components@)[1] == ComponentDesc::Text("**The chuds**"@)
    &&& forall|i: int| 0 <= i < blocks.len() ==> #[trigger] is_text_box(m.components@[i + 2], blocks[i])
}

pub fn build_rich_complete_message(header: &str, chud_blocks: &Vec<String>) -> (r: ComponentsV2Message)
    ensures
        rich_complete_ok(r, header@, chud_blocks@),
{
    let mut components: Vec<Component> = Vec::new();
    components.push(Component::Text(TextDisplay::new(owned(header))));
    if chud_blocks.len() > 0 {
        components.push(Component::Text(TextDisplay::new(owned("**The chuds**"))));
        let mut i: usize = 0;
        while i < chud_blocks.len()
            invariant
                i <= chud_blocks@.len(),
                chud_blocks@.len() > 0,
                components@.len() == i + 2,
                components@[0] == Component::Text(TextDisplay { kind: TYPE_TEXT_DISPLAY, content: components@[0]->Text_0.content }),
                components@[0]->Text_0.content@ == header@,
                components@[1] == Component::Text(TextDisplay { kind: TYPE_TEXT_DISPLAY, content: components@[1]->Text_0.content }),
                components@[1]->Text_0.content@ == "**The chuds**"@,
                forall|j: int| 0 <= j < i ==> #[trigger] is_text_box(components@[j + 2], chud_blocks@[j]),
            decreases chud_blocks@.len() - i,
        {
            let mut inner: Vec<ContainerChild> = Vec::new();
            inner.push(ContainerChild::Text(TextDisplay::new(chud_blocks[i].clone())));
            components.push(Component::Container(Container::new(inner)));
            i += 1;
        }
    }
    ComponentsV2Message::channel(components)
}

/// The key a chud is sorted by: its name, with ASCII letters in lower case when `fold`.
pub open spec fn name_key(p: Player, fold: bool) -> Seq<char> {
    if fold {
        p.chud.unwrap().name@.map_values(|c: char| ascii_lower(c))
    } else {
        p.chud.unwrap().name@
    }
}

/// Are the players in ascending order of their chuds' name keys?
pub open spec fn sorted_by_key(ps: Seq<Player>, fold: bool) -> bool {
    forall|i: int, j: int| 0 <= i < j < ps.len() ==> lex_le(
        #[trigger] name_key(ps[i], fold),
        #[trigger] name_key(ps[j], fold),
    )
}

/// Are the players in ascending order of their chuds' names?
pub open spec fn sorted_by_name(ps: Seq<Player>) -> bool {
    sorted_by_key(ps, false)
}

fn key_le(a: &Player, b: &Player, fold: bool) -> (r: bool)
    requires
        a.chud is Some,
        b.chud is Some,
    ensures
        r == lex_le(name_key(*a, fold), name_key(*b, fold)),
{
    if fold {
        let x = ascii_lowercase(a.chud_ref().name.as_str());
        let y = ascii_lowercase(b.chud_ref().name.as_str());
        str_le(x.as_str(), y.as_str())
    } else {
        str_le(a.chud_ref().name.as_str(), b.chud_ref().name.as_str())
    }
}

/// The players in ascending order of their chuds' names (a stable insertion sort).
pub fn sort_players_by_name(players: Vec<Player>) -> (r: Vec<Player>)
    requires
        all_have_chuds(players@),
    ensures
        sorted_by_name(r@),
        r@.to_multiset() == players@.to_multiset(),
        all_have_chuds(r@),
{
    sort_players_by_key(players, false)
}

/// The players in ascending order of their chuds' names with ASCII case folded, as
/// `to_ascii_lowercase` compares them (a stable insertion sort).
pub fn sort_players_by_folded_name(players: Vec<Player>) -> (r: Vec<Player>)
    requires
        all_have_chuds(players@),
    ensures
        sorted_by_key(r@, true),
        r@.to_multiset() == players@.to_multiset(),
        all_have_chuds(r@),
{
    sort_players_by_key(players, true)
}

fn sort_players_by_key(players: Vec<Player>, fold: bool) -> (r: Vec<Player>)
    requires
        all_have_chuds(players@),
    ensures
        sorted_by_key(r@, fold),
        r@.to_multiset() == players@.to_multiset(),
        all_have_chuds(r@),
{
    broadcast use vstd::seq_lib::group_to_multiset_ensures;
    let ghost all = players@;
    let mut rest = players;
    let mut sorted: Vec<Player> = Vec::new();
    let ghost mut done: int = 0;
    while rest.len() > 0
        invariant
            0 <= done <= all.len(),
            all_have_chuds(all),
            rest@ == all.subrange(done, all.len() as int),
            sorted_by_key(sorted@, fold),
            all_have_chuds(sorted@),
            sorted@.to_multiset() == all.subrange(0, done).to_multiset(),
        decreases rest@.len(),
    {
        let ghost rv = rest@;
        let x = rest.remove(0);
        assert(rest@ =~= rv.drop_first());
        assert(x == all[done]);
        let ghost sv = sorted@;
        let mut p: usize = 0;
        let mut stop = false;
        while p < sorted.len() && !stop
            invariant
                p <= sorted@.len(),
                sv == sorted@,
                all_have_chuds(sv),
                x.chud is Some,
                forall|k: int| 0 <= k < p ==> lex_le(#[trigger] name_key(sv[k], fold), name_key(x, fold)),
                stop ==> p < sorted@.len() && !lex_le(name_key(sv[p as int], fold), name_key(x, fold)),
            decreases sorted@.len() - p + (if stop { 0int } else { 1int }),
        {
            if !key_le(&sorted[p], &x, fold) {
                stop = true;
            } else {
                p += 1;
            }
        }
        let ghost xn = name_key(x, fold);
        proof {
            if p < sorted@.len() {
                lemma_lex_total(name_key(sv[p as int], fold), xn);
                assert forall|k: int| p <= k < sv.len() implies lex_le(xn, #[trigger] name_key(sv[k], fold)) by {
                    if k > p {
                        lemma_lex_trans(xn, name_key(sv[p as int], fold), name_key(sv[k], fold));
                    }
                }
            }
        }
        sorted.insert(p, x);
        proof {
            let nv = sorted@;
            assert(nv =~= sv.insert(p as int, x));
            assert forall|i: int, j: int| 0 <= i < j < nv.len() implies lex_le(
                #[trigger] name_key(nv[i], fold),
                #[trigger] name_key(nv[j], fold),
            ) by {
                if j < p {
                } else if j == p {
                } else if i < p {
                    lemma_lex_trans(name_key(sv[i], fold), xn, name_key(sv[j - 1], fold));
                } else if i == p {
                } else {
                }
            }
            assert forall|i: int| 0 <= i < nv.len() implies (#[trigger] nv[i]).chud is Some by {
                if i < p {
                } else if i == p {
                } else {
                    assert(nv[i] == sv[i - 1]);
                }
            }
            vstd::seq_lib::to_multiset_insert(sv, p as int, x);
            vstd::seq_lib::to_multiset_build(all.subrange(0, done), x);
            assert(all.subrange(0, done + 1) =~= all.subrange(0, done).push(x));
            done = done + 1;
        }
    }
    assert(all.subrange(0, done) =~= all);
    sorted
}

/// A chud's block on the complete screen: a mention of its player, then its stats block
/// without cash.
pub open spec fn complete_block_text(p: Player, registry: ItemRegistry) -> Seq<char> {
    "<@"@ + dec(p.discord_user_id as nat) + ">'s chud "@ + stats_block_text(p, registry, false)
}

/// One block per chud, in order of the chuds' names.
pub fn per_chud_complete_blocks(players: Vec<Player>, registry: &ItemRegistry) -> (r: Vec<String>)
    requires
        all_have_chuds(players@),
    ensures
        exists|ps: Seq<Player>| {
            &&& sorted_by_name(ps)
            &&& #[trigger] ps.to_multiset() == players@.to_multiset()
            &&& strings_view(r@) == ps.map_values(|p: Player| complete_block_text(p, *registry))
        },
{
    let sorted = sort_players_by_name(players);
    let mut blocks: Vec<String> = Vec::new();
    let mut i: usize = 0;
    while i < sorted.len()
        invariant
            i <= sorted@.len(),
            all_have_chuds(sorted@),
            strings_view(blocks@) == sorted@.subrange(0, i as int).map_values(|p: Player| complete_block_text(p, *registry)),
        decreases sorted@.len() - i,
    {
        let stats = format_player_stats_block(&sorted[i], registry, PlayerStatsBlockOptions { include_cash: false });
        let mut b = owned("<@");
        push_dec(&mut b, sorted[i].discord_user_id);
        push_str(&mut b, ">'s chud ");
        push_str(&mut b, stats.as_str());
        assert(b@ =~= complete_block_text(sorted@[i as int], *registry));
        let ghost pre = strings_view(blocks@);
        blocks.push(b);
        assert(strings_view(blocks@) =~= pre.push(complete_block_text(sorted@[i as int], *registry)));
        assert(sorted@.subrange(0, i + 1).map_values(|p: Player| complete_block_text(p, *registry)) =~= sorted@.subrange(
            0,
            i as int,
        ).map_values(|p: Player| complete_block_text(p, *registry)).push(complete_block_text(sorted@[i as int], *registry)));
        i += 1;
    }
    assert(sorted@.subrange(0, i as int) =~= sorted@);
    blocks
}

/// The pieces of the complete screen as plain text: the header, then the chuds' title and
/// blocks when there are any.
pub open spec fn complete_segments(header: Seq<char>, blocks: Seq<Seq<char>>) -> Seq<Seq<char>> {
    seq![header] + if blocks.len() == 0 {
        Seq::empty()
    } else {
        seq!["\n\n**The chuds**\n\n"@] + blocks.map_values(|b: Seq<char>| b + "\n\n"@)
    }
}

pub open spec fn total_utf8(ss: Seq<Seq<char>>) -> nat
    decreases ss.len(),
{
    if ss.len() == 0 {
        0
    } else {
        total_utf8(ss.drop_last()) + utf8_len(ss.last())
    }
}

/// Plain text messages, one per part.
pub open spec fn text_messages_ok(ms: Seq<ComponentsV2Message>, parts: Seq<Seq<char>>) -> bool {
    &&& ms.len() == parts.len()
    &&& forall|i: int| 0 <= i < parts.len() ==> #[trigger] ms[i].flags == FLAG_IS_COMPONENTS_V2
        && describe_all(ms[i].components@) == seq![ComponentDesc::Text(parts[i])]
}

pub open spec fn complete_messages_ok(ms: Seq<ComponentsV2Message>, header: Seq<char>, blocks: Seq<String>) -> bool {
    let segs = complete_segments(header, strings_view(blocks));
    if total_utf8(segs) <= DM_CHAR_LIMIT {
        ms.len() == 1 && rich_complete_ok(ms[0], header, blocks)
    } else {
        text_messages_ok(ms, packed_segments(segs, DM_CHAR_LIMIT as nat))
    }
}

/// The complete screen: one rich message when its text fits a Discord message, else plain
/// text messages packed from its pieces.
pub fn build_complete_messages(header: &str, chud_blocks: &Vec<String>) -> (r: Vec<ComponentsV2Message>)
    ensures
        complete_messages_ok(r@, header@, chud_blocks@),
{
    let ghost segs = complete_segments(header@, strings_view(chud_blocks@));
    let mut segments: Vec<String> = Vec::new();
    segments.push(owned(header));
    if chud_blocks.len() > 0 {
        segments.push(owned("\n\n**The chuds**\n\n"));
        let mut i: usize = 0;
        while i < chud_blocks.len()
            invariant
                i <= chud_blocks@.len(),
                strings_view(segments@) == seq![header@, "\n\n**The chuds**\n\n"@] + strings_view(chud_blocks@).subrange(0, i as int).map_values(|b: Seq<char>| b + "\n\n"@),
            decreases chud_blocks@.len() - i,
        {
            let mut b = chud_blocks[i].clone();
            push_str(&mut b, "\n\n");
            let ghost pre = strings_view(segments@);
            segments.push(b);
            assert(strings_view(segments@) =~= pre.push(chud_blocks@[i as int]@ + "\n\n"@));
            assert(strings_view(chud_blocks@).subrange(0, i + 1).map_values(|b: Seq<char>| b + "\n\n"@) =~= strings_view(
                chud_blocks@,
            ).subrange(0, i as int).map_values(|b: Seq<char>| b + "\n\n"@).push(chud_blocks@[i as int]@ + "\n\n"@));
            i += 1;
        }
        assert(strings_view(chud_blocks@).subrange(0, i as int) =~= strings_view(chud_blocks@));
    }
    assert(strings_view(segments@) =~= segs);
    let mut fits = true;
    let mut total: usize = 0;
    let mut k: usize = 0;
    while k < segments.len() && fits
        invariant
            k <= segments@.len(),
            strings_view(segments@) == segs,
            fits ==> total == total_utf8(segs.subrange(0, k as int)) && total <= DM_CHAR_LIMIT,
            !fits ==> total_utf8(segs) > DM_CHAR_LIMIT,
        decreases segments@.len() - k + (if fits { 1int } else { 0int }),
    {
        assert(segs.subrange(0, k + 1).drop_last() =~= segs.subrange(0, k as int));
        assert(segments@[k as int]@ == segs[k as int]);
        if utf8_fits(segments[k].as_str(), DM_CHAR_LIMIT - total) {
            let w = utf8_len_bounded(segments[k].as_str(), DM_CHAR_LIMIT - total);
            total = total + w;
            k += 1;
        } else {
            proof {
                let pre = segs.subrange(0, k + 1);
                assert(pre.last() == segs[k as int]);
                assert(total_utf8(pre) == total_utf8(pre.drop_last()) + utf8_len(pre.last()));
                lemma_total_prefix(segs, k as int + 1);
            }
            fits = false;
        }
    }
    if fits {
        assert(segs.subrange(0, k as int) =~= segs);
        let mut v: Vec<ComponentsV2Message> = Vec::new();
        v.push(build_rich_complete_message(header, chud_blocks));
        return v;
    }
    assert(total_utf8(segs) > DM_CHAR_LIMIT);
    let parts = pack_dm_segments(&segments, DM_CHAR_LIMIT);
    let mut out: Vec<ComponentsV2Message> = Vec::new();
    let mut i: usize = 0;
    while i < parts.len()
        invariant
            i <= parts@.len(),
            strings_view(parts@) == packed_segments(segs, DM_CHAR_LIMIT as nat),
            out@.len() == i,
            forall|j: int| 0 <= j < i ==> #[trigger] out@[j].flags == FLAG_IS_COMPONENTS_V2
                && describe_all(out@[j].components@) == seq![ComponentDesc::Text(packed_segments(segs, DM_CHAR_LIMIT as nat)[j])],
        decreases parts@.len() - i,
    {
        let mut v: Vec<Component> = Vec::new();
        v.push(Component::Text(TextDisplay::new(parts[i].clone())));
        let ghost t = parts@[i as int]@;
        assert(t == strings_view(parts@)[i as int]);
        assert(describe_all(v@) =~= seq![ComponentDesc::Text(t)]);
        out.push(ComponentsV2Message::channel(v));
        i += 1;
    }
    assert(parts@.len() == packed_segments(segs, DM_CHAR_LIMIT as nat).len());
    assert(!(total_utf8(segs) <= DM_CHAR_LIMIT));
    assert(out@.len() == packed_segments(segs, DM_CHAR_LIMIT as nat).len());
    assert forall|j: int| 0 <= j < packed_segments(segs, DM_CHAR_LIMIT as nat).len() implies #[trigger] out@[j].flags
        == FLAG_IS_COMPONENTS_V2 && describe_all(out@[j].components@) == seq![
        ComponentDesc::Text(packed_segments(segs, DM_CHAR_LIMIT as nat)[j]),
    ] by {
        assert(j < i);
        assert(out@[j].flags == FLAG_IS_COMPONENTS_V2);
    }
    assert(text_messages_ok(out@, packed_segments(segs, DM_CHAR_LIMIT as nat)));
    out
}

proof fn lemma_total_prefix(ss: Seq<Seq<char>>, k: int)
    requires
        0 <= k <= ss.len(),
    ensures
        total_utf8(ss.subrange(0, k)) <= total_utf8(ss),
    decreases ss.len() - k,
{
    if k < ss.len() {
        lemma_total_prefix(ss, k + 1);
        assert(ss.subrange(0, k + 1).drop_last() =~= ss.subrange(0, k));
    } else {
        assert(ss.subrange(0, k) =~= ss);
    }
}

/// The UTF-8 length of a text known to fit `limit` bytes.
fn utf8_len_bounded(s: &str, limit: usize) -> (r: usize)
    requires
        utf8_len(s@) <= limit,
    ensures
        r == utf8_len(s@),
{
    crate::text::utf8_len_of(s, limit)
}

} // verus!
