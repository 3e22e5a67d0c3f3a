use vstd::prelude::*;

verus! {

/// How many unequipped items a player can hold.
pub const STASH_CAPACITY: usize = 5;

/// Why an item could not be put into a stash.
#[derive(Debug, Clone, Copy, PartialEq, Eq, Structural)]
pub enum StashError {
    /// The stash already holds `STASH_CAPACITY` items.
    Full,
    /// The item is already in the stash.
    AlreadyPresent,
}

/// Unequipped items owned by a player (item registry ids).
#[derive(Debug, Default)]
pub struct Stash {
    items: Vec<u32>,
}

impl Clone for Stash {
    fn clone(&self) -> (r: Self)
        ensures
            r@ == self@,
    {
        let items = self.items.clone();
        assert(items@ =~= self.items@);
        Stash { items }
    }
}

impl View for Stash {
    type V = Seq<u32>;

    closed spec fn view(&self) -> Seq<u32> {
        self.items@
    }
}

impl Stash {
    /// A stash holding exactly the given ids, in order.
    pub fn from_items(items: Vec<u32>) -> (r: Stash)
        ensures
            r@ == items@,
    {
        Stash { items }
    }

    pub fn has_room(&self) -> (r: bool)
        ensures
            r == (self@.len() < STASH_CAPACITY),
    {
        self.items.len() < STASH_CAPACITY
    }

    pub fn len(&self) -> (r: usize)
        ensures
            r == self@.len(),
    {
        self.items.len()
    }

    pub fn is_empty(&self) -> (r: bool)
        ensures
            r == (self@.len() == 0),
    {
        self.items.len() == 0
    }

    pub fn contains(&self, id: u32) -> (r: bool)
        ensures
            r == self@.contains(id),
    {
        let mut i: usize = 0;
        while i < self.items.len()
            invariant
                i <= self.items@.len(),
                forall|j: int| 0 <= j < i ==> self.items@[j] != id,
            decreases self.items@.len() - i,
        {
            if self.items[i] == id {
                return true;
            }
            i += 1;
        }
        false
    }

    pub fn items(&self) -> (r: &[u32])
        ensures
            r@ == self@,
    {
        self.items.as_slice()
    }

    /// Removes the first occurrence of `id`; `false` when it is not there.
    pub fn remove(&mut self, id: u32) -> (r: bool)
        ensures
            r == old(self)@.contains(id),
            !r ==> final(self)@ == old(self)@,
            r ==> exists|k: int|
                0 <= k < old(self)@.len() && old(self)@[k] == id && (forall|j: int|
                    0 <= j < k ==> old(self)@[j] != id) && final(self)@ == old(self)@.remove(k),
            final(self)@ == remove_first(old(self)@, id),
    {
        let mut i: usize = 0;
        while i < self.items.len()
            invariant
                i <= self.items@.len(),
                self.items@ == old(self)@,
                forall|j: int| 0 <= j < i ==> self.items@[j] != id,
            decreases self.items@.len() - i,
        {
            if self.items[i] == id {
                proof {
                    lemma_remove_first_at(old(self)@, id, i as int);
                }
                self.items.remove(i);
                return true;
            }
            i += 1;
        }
        proof {
            lemma_remove_first_absent(old(self)@, id);
        }
        false
    }

    /// Adds `id` at the end, refusing a full stash or a duplicate.
    pub fn push(&mut self, id: u32) -> (r: Result<(), StashError>)
        ensures
            old(self)@.len() >= STASH_CAPACITY ==> r == Err::<(), StashError>(StashError::Full),
            old(self)@.len() < STASH_CAPACITY && old(self)@.contains(id) ==> r == Err::<
                (),
                StashError,
            >(StashError::AlreadyPresent),
            old(self)@.len() < STASH_CAPACITY && !old(self)@.contains(id) ==> r == Ok::<
                (),
                StashError,
            >(()),
            r is Ok ==> final(self)@ == old(self)@.push(id),
            r is Err ==> final(self)@ == old(self)@,
    {
        if self.items.len() >= STASH_CAPACITY {
            return Err(StashError::Full);
        }
        if self.contains(id) {
            return Err(StashError::AlreadyPresent);
        }
        self.items.push(id);
        Ok(())
    }
}

/// The sequence without the first occurrence of `id` (unchanged when absent).
pub open spec fn remove_first(s: Seq<u32>, id: u32) -> Seq<u32>
    decreases s.len(),
{
    if s.len() == 0 {
        s
    } else if s[0] == id {
        s.drop_first()
    } else {
        seq![s[0]] + remove_first(s.drop_first(), id)
    }
}

pub proof fn lemma_remove_first_at(s: Seq<u32>, id: u32, k: int)
    requires
        0 <= k < s.len(),
        s[k] == id,
        forall|j: int| 0 <= j < k ==> s[j] != id,
    ensures
        remove_first(s, id) == s.remove(k),
    decreases k,
{
    if k == 0 {
        assert(s.drop_first() =~= s.remove(0));
    } else {
        lemma_remove_first_at(s.drop_first(), id, k - 1);
        assert(seq![s[0]] + s.drop_first().remove(k - 1) =~= s.remove(k));
    }
}

pub proof fn lemma_remove_first_absent(s: Seq<u32>, id: u32)
    requires
        forall|j: int| 0 <= j < s.len() ==> s[j] != id,
    ensures
        remove_first(s, id) == s,
    decreases s.len(),
{
    if s.len() > 0 {
        lemma_remove_first_absent(s.drop_first(), id);
        assert(seq![s[0]] + s.drop_first() =~= s);
    }
}

} // verus!
