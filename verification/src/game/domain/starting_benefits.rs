use vstd::prelude::*;

verus! {

#[derive(Debug, Clone, Copy, PartialEq, Eq, Structural)]
pub struct StartingBenefitEntry {
    pub discord_user_id: u64,
    pub money: u32,
}

/// Index of the first entry at or after `i` that belongs to `uid`.
pub open spec fn first_entry_from(es: Seq<StartingBenefitEntry>, uid: u64, i: int) -> Option<int>
    decreases es.len() - i,
{
    if i < 0 || i >= es.len() {
        None
    } else if es[i].discord_user_id == uid {
        Some(i)
    } else {
        first_entry_from(es, uid, i + 1)
    }
}

/// Money pending for `uid`: that of its first entry, or nothing.
pub open spec fn pending(es: Seq<StartingBenefitEntry>, uid: u64) -> u32 {
    match first_entry_from(es, uid, 0) {
        Some(i) => es[i].money,
        None => 0,
    }
}

pub open spec fn saturating_add_u32(a: u32, b: u32) -> u32 {
    if a + b > u32::MAX {
        u32::MAX
    } else {
        (a + b) as u32
    }
}

/// Head-start money awarded to a player when their next chud is created.
#[derive(Debug, Default)]
pub struct StartingBenefits {
    pub entries: Vec<StartingBenefitEntry>,
}

impl StartingBenefits {
    /// No player has two entries.
    pub open spec fn wf(self) -> bool {
        forall|i: int, j: int|
            0 <= i < j < self.entries@.len() ==> self.entries@[i].discord_user_id
                != self.entries@[j].discord_user_id
    }

    fn find(&self, discord_user_id: u64) -> (r: Option<usize>)
        ensures
            r matches Some(i) ==> first_entry_from(self.entries@, discord_user_id, 0) == Some(i as int),
            r is None ==> first_entry_from(self.entries@, discord_user_id, 0) is None,
    {
        let mut i: usize = 0;
        while i < self.entries.len()
            invariant
                i <= self.entries@.len(),
                first_entry_from(self.entries@, discord_user_id, 0) == first_entry_from(
                    self.entries@,
                    discord_user_id,
                    i as int,
                ),
            decreases self.entries@.len() - i,
        {
            if self.entries[i].discord_user_id == discord_user_id {
                return Some(i);
            }
            i += 1;
        }
        None
    }

    /// Add to a player's pending head start, capped at `u32::MAX`; nothing for a zero amount.
    pub fn add(&mut self, discord_user_id: u64, amount: u32)
        ensures
            final(self).entries@ == benefits_after_add(old(self).entries@, discord_user_id, amount),
    {
        if amount == 0 {
            return;
        }
        match self.find(discord_user_id) {
            Some(i) => {
                proof {
                    lemma_first_entry_found(self.entries@, discord_user_id, 0);
                }
                let entry = self.entries[i];
                self.entries.set(
                    i,
                    StartingBenefitEntry { discord_user_id, money: entry.money.saturating_add(amount) },
                );
            },
            None => {
                self.entries.push(StartingBenefitEntry { discord_user_id, money: amount });
            },
        }
    }

    /// Claim and remove benefits for a player. Returns 0 if none pending.
    pub fn take(&mut self, discord_user_id: u64) -> (r: u32)
        ensures
            r == pending(old(self).entries@, discord_user_id),
            final(self).entries@ == benefits_after_take(old(self).entries@, discord_user_id),
    {
        match self.find(discord_user_id) {
            Some(idx) => {
                proof {
                    lemma_first_entry_found(self.entries@, discord_user_id, 0);
                }
                self.entries.remove(idx).money
            },
            None => 0,
        }
    }
}

/// The entries after adding `amount` for `uid`: its first entry grows (capped at
/// `u32::MAX`), or a new entry is appended; a zero amount changes nothing.
pub open spec fn benefits_after_add(es: Seq<StartingBenefitEntry>, uid: u64, amount: u32) -> Seq<
    StartingBenefitEntry,
> {
    if amount == 0 {
        es
    } else {
        match first_entry_from(es, uid, 0) {
            Some(i) => es.update(
                i,
                StartingBenefitEntry { discord_user_id: uid, money: saturating_add_u32(es[i].money, amount) },
            ),
            None => es.push(StartingBenefitEntry { discord_user_id: uid, money: amount }),
        }
    }
}

/// The entries after `uid` claims its head start: its first entry is gone.
pub open spec fn benefits_after_take(es: Seq<StartingBenefitEntry>, uid: u64) -> Seq<
    StartingBenefitEntry,
> {
    match first_entry_from(es, uid, 0) {
        Some(i) => es.remove(i),
        None => es,
    }
}

pub open spec fn distinct_ids(es: Seq<StartingBenefitEntry>) -> bool {
    forall|i: int, j: int| 0 <= i < j < es.len() ==> es[i].discord_user_id != es[j].discord_user_id
}

/// A found entry lies in range and belongs to the player.
pub proof fn lemma_first_entry_found(es: Seq<StartingBenefitEntry>, uid: u64, i: int)
    requires
        0 <= i,
    ensures
        first_entry_from(es, uid, i) matches Some(k) ==> i <= k < es.len()
            && es[k].discord_user_id == uid && forall|j: int|
            i <= j < k ==> es[j].discord_user_id != uid,
        first_entry_from(es, uid, i) is None ==> forall|j: int|
            i <= j < es.len() ==> es[j].discord_user_id != uid,
    decreases es.len() - i,
{
    if i < es.len() && es[i].discord_user_id != uid {
        lemma_first_entry_found(es, uid, i + 1);
    }
}

/// The first entry of `u` is the one at `k` when `k` holds `u` and nothing before it does.
proof fn lemma_first_at(s: Seq<StartingBenefitEntry>, u: u64, k: int, i: int)
    requires
        0 <= i <= k < s.len(),
        s[k].discord_user_id == u,
        forall|j: int| i <= j < k ==> s[j].discord_user_id != u,
    ensures
        first_entry_from(s, u, i) == Some(k),
    decreases k - i,
{
    if i < k {
        lemma_first_at(s, u, k, i + 1);
    }
}

/// No entry of `u` from `i` on means no first entry.
proof fn lemma_first_none(s: Seq<StartingBenefitEntry>, u: u64, i: int)
    requires
        0 <= i,
        forall|j: int| i <= j < s.len() ==> s[j].discord_user_id != u,
    ensures
        first_entry_from(s, u, i) is None,
    decreases s.len() - i,
{
    if i < s.len() {
        lemma_first_none(s, u, i + 1);
    }
}

proof fn lemma_add_facts(es: Seq<StartingBenefitEntry>, uid: u64, amount: u32, other: u64)
    requires
        distinct_ids(es),
        other != uid,
    ensures
        distinct_ids(benefits_after_add(es, uid, amount)),
        pending(benefits_after_add(es, uid, amount), uid) == saturating_add_u32(pending(es, uid), amount),
        pending(benefits_after_add(es, uid, amount), other) == pending(es, other),
{
    let a = benefits_after_add(es, uid, amount);
    lemma_first_entry_found(es, uid, 0);
    lemma_first_entry_found(es, other, 0);
    if amount > 0 {
        match first_entry_from(es, uid, 0) {
            Some(i) => {
                assert(a[i].discord_user_id == uid);
                lemma_first_at(a, uid, i, 0);
            },
            None => {
                assert(a[es.len() as int].discord_user_id == uid);
                lemma_first_at(a, uid, es.len() as int, 0);
            },
        }
        match first_entry_from(es, other, 0) {
            Some(m) => {
                lemma_first_at(a, other, m, 0);
            },
            None => {
                lemma_first_none(a, other, 0);
            },
        }
    }
}

proof fn lemma_take_facts(a: Seq<StartingBenefitEntry>, uid: u64, other: u64)
    requires
        distinct_ids(a),
        other != uid,
    ensures
        distinct_ids(benefits_after_take(a, uid)),
        pending(benefits_after_take(a, uid), uid) == 0,
        pending(benefits_after_take(a, uid), other) == pending(a, other),
{
    let t = benefits_after_take(a, uid);
    lemma_first_entry_found(a, uid, 0);
    lemma_first_entry_found(a, other, 0);
    match first_entry_from(a, uid, 0) {
        Some(k) => {
            assert(distinct_ids(t));
            assert forall|j: int| 0 <= j < t.len() implies t[j].discord_user_id != uid by {
                if j >= k {
                    assert(t[j] == a[j + 1]);
                }
            }
            lemma_first_none(t, uid, 0);
            match first_entry_from(a, other, 0) {
                Some(m) => {
                    if m < k {
                        lemma_first_at(t, other, m, 0);
                    } else {
                        assert(t[m - 1] == a[m]);
                        assert forall|j: int| 0 <= j < m - 1 implies t[j].discord_user_id != other by {
                            if j >= k {
                                assert(t[j] == a[j + 1]);
                            }
                        }
                        lemma_first_at(t, other, m - 1, 0);
                    }
                },
                None => {
                    assert forall|j: int| 0 <= j < t.len() implies t[j].discord_user_id != other by {
                        if j >= k {
                            assert(t[j] == a[j + 1]);
                        }
                    }
                    lemma_first_none(t, other, 0);
                },
            }
        },
        None => {},
    }
}

/// Adding a head start and then claiming it yields what was pending plus the amount
/// (capped at `u32::MAX`), leaves nothing pending for that player, and keeps every other
/// player's pending money unchanged; no player ever gets two entries.
pub proof fn lemma_add_then_take(es: Seq<StartingBenefitEntry>, uid: u64, amount: u32, other: u64)
    requires
        distinct_ids(es),
        other != uid,
    ensures
        distinct_ids(benefits_after_add(es, uid, amount)),
        distinct_ids(benefits_after_take(benefits_after_add(es, uid, amount), uid)),
        pending(benefits_after_add(es, uid, amount), uid) == saturating_add_u32(pending(es, uid), amount),
        pending(benefits_after_take(benefits_after_add(es, uid, amount), uid), uid) == 0,
        pending(benefits_after_take(benefits_after_add(es, uid, amount), uid), other) == pending(es, other),
{
    lemma_add_facts(es, uid, amount, other);
    lemma_take_facts(benefits_after_add(es, uid, amount), uid, other);
}

} // verus!
