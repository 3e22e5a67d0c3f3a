use vstd::prelude::*;

use crate::game::generation::quest_generator::{GeneratedQuest, QuestData};

verus! {

#[derive(Debug)]
pub struct QueuedQuest {
    pub quest_data: QuestData,
    pub generated: GeneratedQuest,
}

/// Generated jobs waiting for a free slot on the board, oldest first.
#[derive(Debug, Default)]
pub struct JobQueue {
    pub entries: Vec<QueuedQuest>,
}

impl JobQueue {
    pub fn push(&mut self, quest_data: QuestData, generated: GeneratedQuest)
        ensures
            final(self).entries@ == old(self).entries@.push(QueuedQuest { quest_data, generated }),
    {
        self.entries.push(QueuedQuest { quest_data, generated });
    }
}

} // verus!
