use vstd::prelude::*;

verus! {

/// Token budget for each agent's conversation history (approximate; 1 token ≈ 4 chars).
pub const MEMORY_TOKEN_BUDGET: usize = 50_000;

/// Identifies which agent conversation history to reset.
#[derive(Debug, Clone, Copy, PartialEq, Eq, Structural)]
pub enum LlmMemorySlot {
    Description,
    Trials,
    StoryDescription,
    StoryTrials,
    Results,
    Item,
    Gravestone,
    Merchant,
    All,
}

/// Total size of a run of messages.
pub open spec fn total_size(sizes: Seq<usize>) -> nat
    decreases sizes.len(),
{
    if sizes.len() == 0 {
        0
    } else {
        total_size(sizes.drop_last()) + (sizes.last() as nat)
    }
}

/// How many of the oldest messages to drop from `k` on: none once the rest fits the
/// budget or only one message is left.
pub open spec fn drops_from(sizes: Seq<usize>, budget: nat, k: int) -> int
    decreases sizes.len() - k,
{
    if k >= sizes.len() - 1 || total_size(sizes.subrange(k, sizes.len() as int)) <= budget {
        k
    } else {
        drops_from(sizes, budget, k + 1)
    }
}

proof fn lemma_total_drop_first(sizes: Seq<usize>)
    requires
        sizes.len() > 0,
    ensures
        total_size(sizes) == sizes[0] + total_size(sizes.drop_first()),
    decreases sizes.len(),
{
    if sizes.len() > 1 {
        lemma_total_drop_first(sizes.drop_last());
        assert(sizes.drop_last().drop_first() =~= sizes.drop_first().drop_last());
        assert(sizes.drop_first().last() == sizes.last());
        assert(total_size(sizes.drop_first()) == total_size(sizes.drop_first().drop_last()) + (sizes.drop_first().last() as nat));
    } else {
        assert(sizes.drop_first().len() == 0);
        assert(sizes.drop_last().len() == 0);
        assert(total_size(sizes.drop_last()) == 0);
        assert(total_size(sizes.drop_first()) == 0);
    }
}

/// The number of oldest messages the history filter drops so that the serialized history
/// (message sizes `sizes`, oldest first) fits four characters per budgeted token, always
/// keeping the newest message.
pub fn char_budget_drop_count(sizes: &Vec<usize>) -> (r: usize)
    requires
        total_size(sizes@) <= usize::MAX,
    ensures
        r == drops_from(sizes@, (MEMORY_TOKEN_BUDGET * 4) as nat, 0),
{
    let budget: usize = MEMORY_TOKEN_BUDGET * 4;
    let mut total: usize = 0;
    let mut i: usize = 0;
    while i < sizes.len()
        invariant
            i <= sizes@.len(),
            total == total_size(sizes@.subrange(0, i as int)),
            total_size(sizes@) <= usize::MAX,
            total_size(sizes@.subrange(0, i as int)) <= total_size(sizes@),
        decreases sizes@.len() - i,
    {
        assert(sizes@.subrange(0, i + 1).drop_last() =~= sizes@.subrange(0, i as int));
        proof {
            lemma_total_prefix_le(sizes@, i as int + 1);
        }
        total = total + sizes[i];
        i += 1;
    }
    assert(sizes@.subrange(0, sizes@.len() as int) =~= sizes@);
    let mut dropped: usize = 0;
    while total > budget && sizes.len() - dropped > 1
        invariant
            dropped <= sizes@.len(),
            sizes@.len() > 0 ==> dropped < sizes@.len(),
            total == total_size(sizes@.subrange(dropped as int, sizes@.len() as int)),
            drops_from(sizes@, budget as nat, dropped as int) == drops_from(sizes@, budget as nat, 0),
            budget == MEMORY_TOKEN_BUDGET * 4,
        decreases sizes@.len() - dropped,
    {
        let ghost rest = sizes@.subrange(dropped as int, sizes@.len() as int);
        proof {
            lemma_total_drop_first(rest);
            assert(rest.drop_first() =~= sizes@.subrange(dropped + 1, sizes@.len() as int));
        }
        total = total - sizes[dropped];
        dropped += 1;
    }
    dropped
}

proof fn lemma_total_prefix_le(sizes: Seq<usize>, i: int)
    requires
        0 <= i <= sizes.len(),
    ensures
        total_size(sizes.subrange(0, i)) <= total_size(sizes),
    decreases sizes.len() - i,
{
    if i < sizes.len() {
        lemma_total_prefix_le(sizes, i + 1);
        assert(sizes.subrange(0, i + 1).drop_last() =~= sizes.subrange(0, i));
    } else {
        assert(sizes.subrange(0, i) =~= sizes);
    }
}

} // verus!
