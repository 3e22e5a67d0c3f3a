use vstd::prelude::*;

use crate::game::domain::board::{Board, BoardQuestView};
use crate::game::domain::job_queue::{JobQueue, QueuedQuest};
use crate::game::domain::quest_result::QuestResult;
use crate::game::engine::{enqueue_quest, refill_board, refill_count, refill_effect};
use crate::game::generation::quest_generator::{GeneratedQuest, QuestData};

verus! {

broadcast use vstd::std_specs::hash::group_hash_axioms;

/// Side effect from processing a generation job that the Discord layer may need to react to.
pub enum WorkerEffect {
    QuestResultStored { quest_id: u32 },
    BoardRefilled { added: usize },
    QuestCreationFailed,
    GenerateResultFailed { quest_id: u32 },
}

/// What the slow generation work for a job came to.
pub enum GenerationOutcome {
    QuestCreated { quest_data: QuestData, generated: GeneratedQuest, story_index: Option<usize> },
    QuestResult { quest_id: u32, result: QuestResult },
    QuestCreationFailed,
    GenerateResultFailed { quest_id: u32 },
}

/// A committed outcome: the effects to report, and whether a pending quest creation
/// finished (successfully or not) and leaves the in-flight count.
pub struct Commit {
    pub effects: Vec<WorkerEffect>,
    pub creation_finished: bool,
}

/// Room for the board to take a quest and refill from the queue afterwards.
pub open spec fn commit_room(board: Board, queue: JobQueue, max_jobs: usize) -> bool {
    &&& (queue.entries@.len() + 1) * (queue.entries@.len() + 2) <= usize::MAX
    &&& board.next_id + 1 + max_jobs < u32::MAX
}

/// The board and queue after a created quest was placed (a story job on the board, a
/// regular one at the end of the queue) and the board refilled, `added` jobs coming from
/// the queue.
pub open spec fn placed_and_refilled(
    b0: Board,
    q0: JobQueue,
    b2: Board,
    q2: JobQueue,
    quest_data: QuestData,
    generated: GeneratedQuest,
    story_index: Option<usize>,
    max_jobs: usize,
    job_timeout_tick: u32,
    catalog_len: usize,
    added: usize,
) -> bool {
    exists|b: Board, q: JobQueue| {
        &&& match story_index {
            Some(_) => {
                &&& b.quests_view() == b0.quests_view().push(
                    BoardQuestView {
                        id: b0.next_id,
                        quest_data,
                        generated,
                        states: Seq::empty(),
                        story_index,
                        timeout: 0,
                    },
                )
                &&& b.next_id == b0.next_id + 1
                &&& b.story_next_index == b0.story_next_index
                &&& b.story_catalog_len == b0.story_catalog_len
                &&& q.entries@ == q0.entries@
            },
            None => {
                &&& b == b0
                &&& q.entries@ == q0.entries@.push(QueuedQuest { quest_data, generated })
            },
        }
        &&& #[trigger] refill_effect(b, q, b2, q2, max_jobs, job_timeout_tick, catalog_len, added)
    }
}

/// Apply a completed generation outcome: a result is stored under its quest; a created
/// story job goes on the board and a regular one into the queue, after which the board is
/// refilled; failures change nothing.
pub fn commit_generation(
    outcome: GenerationOutcome,
    board: &mut Board,
    queue: &mut JobQueue,
    max_jobs: usize,
    job_timeout_tick: u32,
    catalog_len: usize,
) -> (r: Commit)
    requires
        commit_room(*old(board), *old(queue), max_jobs),
    ensures
        match outcome {
            GenerationOutcome::QuestResult { quest_id, result } => {
                &&& r.effects@.len() == 1 && r.effects@[0] == (WorkerEffect::QuestResultStored { quest_id })
                &&& !r.creation_finished
                &&& final(board).completed_results@ == old(board).completed_results@.insert(quest_id, result)
                &&& final(board).quests_view() == old(board).quests_view()
                &&& final(board).next_id == old(board).next_id
                &&& final(queue).entries@ == old(queue).entries@
            },
            GenerationOutcome::QuestCreated { quest_data, generated, story_index } => {
                &&& r.creation_finished
                &&& r.effects@.len() == 1
                &&& r.effects@[0] matches WorkerEffect::BoardRefilled { added }
                &&& placed_and_refilled(
                    *old(board),
                    *old(queue),
                    *final(board),
                    *final(queue),
                    quest_data,
                    generated,
                    story_index,
                    max_jobs,
                    job_timeout_tick,
                    catalog_len,
                    added,
                )
            },
            GenerationOutcome::QuestCreationFailed => {
                &&& r.effects@.len() == 1 && r.effects@[0] is QuestCreationFailed
                &&& r.creation_finished
                &&& *final(board) == *old(board)
                &&& final(queue).entries@ == old(queue).entries@
            },
            GenerationOutcome::GenerateResultFailed { quest_id } => {
                &&& r.effects@.len() == 1 && r.effects@[0] == (WorkerEffect::GenerateResultFailed { quest_id })
                &&& !r.creation_finished
                &&& *final(board) == *old(board)
                &&& final(queue).entries@ == old(queue).entries@
            },
        },
{
    let mut effects: Vec<WorkerEffect> = Vec::new();
    match outcome {
        GenerationOutcome::QuestResult { quest_id, result } => {
            board.completed_results.insert(quest_id, result);
            effects.push(WorkerEffect::QuestResultStored { quest_id });
            assert(effects@[0] == (WorkerEffect::QuestResultStored { quest_id }));
            Commit { effects, creation_finished: false }
        },
        GenerationOutcome::QuestCreated { quest_data, generated, story_index } => {
            match story_index {
                Some(_) => {
                    board.add_quest(quest_data, generated, story_index, job_timeout_tick);
                },
                None => {
                    enqueue_quest(queue, quest_data, generated);
                },
            }
            let ghost b = *board;
            let ghost q = *queue;
            proof {
                let l = old(queue).entries@.len() as int;
                let m = queue.entries@.len() as int;
                assert(m <= l + 1);
                assert(m * (m + 1) <= (l + 1) * (l + 2)) by (nonlinear_arith)
                    requires
                        0 <= m <= l + 1,
                ;
                let n = refill_count(board.quests@.len() as int, max_jobs as int, queue.entries@.len() as int);
                assert(n <= max_jobs);
            }
            let added = refill_board(board, queue, max_jobs, job_timeout_tick, catalog_len);
            assert(refill_effect(b, q, *board, *queue, max_jobs, job_timeout_tick, catalog_len, added));
            effects.push(WorkerEffect::BoardRefilled { added });
            assert(effects@[0] == (WorkerEffect::BoardRefilled { added }));
            assert(placed_and_refilled(
                *old(board),
                *old(queue),
                *board,
                *queue,
                quest_data,
                generated,
                story_index,
                max_jobs,
                job_timeout_tick,
                catalog_len,
                added,
            ));
            Commit { effects, creation_finished: true }
        },
        GenerationOutcome::QuestCreationFailed => {
            effects.push(WorkerEffect::QuestCreationFailed);
            Commit { effects, creation_finished: true }
        },
        GenerationOutcome::GenerateResultFailed { quest_id } => {
            effects.push(WorkerEffect::GenerateResultFailed { quest_id });
            Commit { effects, creation_finished: false }
        },
    }
}

} // verus!
