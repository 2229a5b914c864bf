//! The indexer's main loop as a state machine: poll the chain height, index
//! the blocks up to it one by one (retrying a block that fails), then wait
//! for new blocks. The caller performs each step's I/O and reports back.

use vstd::prelude::*;

verus! {

/// Where the indexer stands: the next block to index, and the chain height
/// of the last successful poll.
#[derive(Debug, Clone, Copy, PartialEq, Eq, Structural)]
pub struct SyncState {
    pub current_block: u64,
    pub chain_height: u64,
}

/// What the caller reports after carrying out a step.
#[derive(Debug, Clone, Copy, PartialEq, Eq, Structural)]
pub enum SyncEvent {
    /// The node reported its block count.
    ChainHeight(u64),
    /// Asking the node for its block count failed.
    ChainHeightFailed,
    /// The block `current_block` was indexed.
    BlockIndexed,
    /// Indexing the block `current_block` failed.
    BlockFailed,
}

/// What the caller does next.
#[derive(Debug, Clone, Copy, PartialEq, Eq, Structural)]
pub enum SyncTask {
    /// Ask the node for its block count.
    PollChain,
    /// Index this block.
    IndexBlock(u64),
}

/// One step: the new state, the chain height to store, the block to store
/// as the last one indexed, how long to sleep first, whether to log
/// progress, and the next task.
#[derive(Debug, Clone, Copy, PartialEq, Eq, Structural)]
pub struct SyncStep {
    pub state: SyncState,
    pub store_chain_height: Option<u64>,
    pub store_last_indexed: Option<u64>,
    pub sleep_secs: u64,
    pub log_progress: bool,
    pub next: SyncTask,
}

/// The task after the poll or after a block: the current block while it is
/// within the chain, else a new poll after waiting 15 seconds.
pub open spec fn continue_or_wait(state: SyncState) -> (u64, SyncTask) {
    if state.current_block <= state.chain_height {
        (0, SyncTask::IndexBlock(state.current_block))
    } else {
        (15, SyncTask::PollChain)
    }
}

/// The step that an event leads to (see the variants of `SyncEvent`):
/// a failed poll waits 10 seconds and polls again; a poll stores the height
/// and indexes from the current block; an indexed block is stored as the
/// last indexed and the next block follows; a failed block waits 5 seconds
/// and is tried again. Progress is logged after a block whenever the
/// current block is a multiple of 1000.
pub open spec fn spec_sync_step(state: SyncState, event: SyncEvent) -> SyncStep {
    match event {
        SyncEvent::ChainHeightFailed => SyncStep {
            state,
            store_chain_height: None,
            store_last_indexed: None,
            sleep_secs: 10,
            log_progress: false,
            next: SyncTask::PollChain,
        },
        SyncEvent::ChainHeight(h) => {
            let s = SyncState { current_block: state.current_block, chain_height: h };
            SyncStep {
                state: s,
                store_chain_height: Some(h),
                store_last_indexed: None,
                sleep_secs: continue_or_wait(s).0,
                log_progress: false,
                next: continue_or_wait(s).1,
            }
        },
        SyncEvent::BlockIndexed => {
            let s = SyncState {
                current_block: (state.current_block + 1) as u64,
                chain_height: state.chain_height,
            };
            SyncStep {
                state: s,
                store_chain_height: None,
                store_last_indexed: Some(state.current_block),
                sleep_secs: continue_or_wait(s).0,
                log_progress: s.current_block % 1000 == 0,
                next: continue_or_wait(s).1,
            }
        },
        SyncEvent::BlockFailed => SyncStep {
            state,
            store_chain_height: None,
            store_last_indexed: None,
            sleep_secs: 5,
            log_progress: state.current_block % 1000 == 0,
            next: continue_or_wait(state).1,
        },
    }
}

/// The first task of an indexer starting from `start_block`.
pub fn sync_start(start_block: u64) -> (res: (SyncState, SyncTask))
    ensures
        res.0.current_block == start_block,
        res.1 == SyncTask::PollChain,
{
    (SyncState { current_block: start_block, chain_height: 0 }, SyncTask::PollChain)
}

/// Decides the indexer's next step (see `spec_sync_step`).
pub fn sync_step(state: SyncState, event: SyncEvent) -> (res: SyncStep)
    requires
        event == SyncEvent::BlockIndexed ==> state.current_block < u64::MAX,
    ensures
        res == spec_sync_step(state, event),
{
    match event {
        SyncEvent::ChainHeightFailed => SyncStep {
            state,
            store_chain_height: None,
            store_last_indexed: None,
            sleep_secs: 10,
            log_progress: false,
            next: SyncTask::PollChain,
        },
        SyncEvent::ChainHeight(h) => {
            let s = SyncState { current_block: state.current_block, chain_height: h };
            let (sleep_secs, next) = if s.current_block <= s.chain_height {
                (0, SyncTask::IndexBlock(s.current_block))
            } else {
                (15, SyncTask::PollChain)
            };
            SyncStep {
                state: s,
                store_chain_height: Some(h),
                store_last_indexed: None,
                sleep_secs,
                log_progress: false,
                next,
            }
        },
        SyncEvent::BlockIndexed => {
            let s = SyncState { current_block: state.current_block + 1, chain_height: state.chain_height };
            let (sleep_secs, next) = if s.current_block <= s.chain_height {
                (0, SyncTask::IndexBlock(s.current_block))
            } else {
                (15, SyncTask::PollChain)
            };
            SyncStep {
                state: s,
                store_chain_height: None,
                store_last_indexed: Some(state.current_block),
                sleep_secs,
                log_progress: s.current_block % 1000 == 0,
                next,
            }
        },
        SyncEvent::BlockFailed => {
            let next = if state.current_block <= state.chain_height {
                SyncTask::IndexBlock(state.current_block)
            } else {
                SyncTask::PollChain
            };
            SyncStep {
                state,
                store_chain_height: None,
                store_last_indexed: None,
                sleep_secs: 5,
                log_progress: state.current_block % 1000 == 0,
                next,
            }
        },
    }
}

/// Blocks are indexed in order and none is skipped or beyond the chain: a
/// step asks to index only the current block, and only while it is within
/// the chain height it knows; the block stored as the last indexed is the
/// one just indexed, and the next block follows it directly.
pub proof fn law_blocks_indexed_in_order(state: SyncState, event: SyncEvent)
    requires
        event == SyncEvent::BlockIndexed ==> state.current_block < u64::MAX,
    ensures
        ({
            let step = spec_sync_step(state, event);
            &&& step.next matches SyncTask::IndexBlock(b) ==> b == step.state.current_block && b
                <= step.state.chain_height
            &&& step.store_last_indexed matches Some(b) ==> b == state.current_block
                && step.state.current_block == b + 1
            &&& step.state.current_block == state.current_block || step.state.current_block
                == state.current_block + 1
            &&& step.state.current_block == state.current_block + 1 ==> event == SyncEvent::BlockIndexed
        }),
{
}

/// The state after a run of events from `state`.
pub open spec fn run_state(state: SyncState, events: Seq<SyncEvent>) -> SyncState
    decreases events.len(),
{
    if events.len() == 0 {
        state
    } else {
        run_state(spec_sync_step(state, events[0]).state, events.drop_first())
    }
}

/// The blocks that a run of events from `state` stores as the last indexed,
/// in the order it stores them.
pub open spec fn run_stored(state: SyncState, events: Seq<SyncEvent>) -> Seq<u64>
    decreases events.len(),
{
    if events.len() == 0 {
        Seq::empty()
    } else {
        let step = spec_sync_step(state, events[0]);
        let here = match step.store_last_indexed {
            Some(b) => seq![b],
            None => Seq::empty(),
        };
        here + run_stored(step.state, events.drop_first())
    }
}

/// Over any run of events the indexer stores as indexed exactly the blocks
/// from its starting block on, one after the other, none skipped and none
/// twice, and it then stands at the block after the last one stored.
pub proof fn law_run_indexes_consecutive_blocks(state: SyncState, events: Seq<SyncEvent>)
    requires
        state.current_block + events.len() <= u64::MAX,
    ensures
        run_state(state, events).current_block == state.current_block + run_stored(state, events).len(),
        forall|i: int|
            0 <= i < run_stored(state, events).len() ==> #[trigger] run_stored(state, events)[i]
                == state.current_block + i,
    decreases events.len(),
{
    if events.len() > 0 {
        let step = spec_sync_step(state, events[0]);
        let rest = events.drop_first();
        law_blocks_indexed_in_order(state, events[0]);
        law_run_indexes_consecutive_blocks(step.state, rest);
        let tail = run_stored(step.state, rest);
        if events[0] == SyncEvent::BlockIndexed {
            assert(run_stored(state, events) =~= seq![state.current_block] + tail);
        } else {
            assert(step.store_last_indexed is None);
            assert(run_stored(state, events) =~= tail);
        }
    }
}

} // verus!
