//! Block windows for log queries, and the order of the polling cycle.
use vstd::prelude::*;

verus! {

/// A backfill window spans this many blocks after its first one.
pub const BACKFILL_SPAN: u64 = 49999;

/// The incremental window starts this many blocks before the head.
pub const TRAILING_SPAN: u64 = 64;

/// An inclusive range of block numbers.
#[derive(Debug, Clone, Copy, PartialEq, Eq, Structural)]
pub struct BlockWindow {
    pub from_block: u64,
    pub to_block: u64,
}

/// The first block of the backfill window that ends at `end`: `BACKFILL_SPAN`
/// blocks earlier, but not before the start block.
pub open spec fn backfill_start(start_block: u64, end: u64) -> u64 {
    if end >= BACKFILL_SPAN && end - BACKFILL_SPAN > start_block { (end - BACKFILL_SPAN) as u64 } else { start_block }
}

/// The backfill windows from `end` down to the start block, newest first.
pub open spec fn backfill_plan(start_block: u64, end: u64) -> Seq<BlockWindow>
    decreases end,
{
    if end <= start_block {
        Seq::empty()
    } else {
        let from = backfill_start(start_block, end);
        seq![BlockWindow { from_block: from, to_block: end }] + backfill_plan(start_block, from)
    }
}

/// The next backfill window below `current_end`, or nothing once the start
/// block is reached.
pub fn next_backfill_window(start_block: u64, current_end: u64) -> (r: Option<BlockWindow>)
    ensures
        r is None <==> current_end <= start_block,
        r is Some ==> r->Some_0 == (BlockWindow {
            from_block: backfill_start(start_block, current_end),
            to_block: current_end,
        }),
{
    if current_end <= start_block {
        return None;
    }
    let from_block = if current_end >= BACKFILL_SPAN && current_end - BACKFILL_SPAN > start_block {
        current_end - BACKFILL_SPAN
    } else {
        start_block
    };
    Some(BlockWindow { from_block, to_block: current_end })
}

/// Every backfill window from the head down to the start block, newest first;
/// each one starts where the next one ends.
pub fn backfill_windows(start_block: u64, head: u64) -> (r: Vec<BlockWindow>)
    ensures
        r@ == backfill_plan(start_block, head),
{
    let mut out: Vec<BlockWindow> = Vec::new();
    let mut end: u64 = head;
    while end > start_block
        invariant
            out@ + backfill_plan(start_block, end) == backfill_plan(start_block, head),
        decreases end,
    {
        let from_block = if end >= BACKFILL_SPAN && end - BACKFILL_SPAN > start_block {
            end - BACKFILL_SPAN
        } else {
            start_block
        };
        let w = BlockWindow { from_block, to_block: end };
        let ghost before = out@;
        out.push(w);
        proof {
            assert(before + backfill_plan(start_block, end) == out@ + backfill_plan(start_block, w.from_block));
        }
        end = w.from_block;
    }
    assert(backfill_plan(start_block, end) == Seq::<BlockWindow>::empty());
    assert(out@ + Seq::<BlockWindow>::empty() == out@);
    out
}

/// The trailing window that ends at the head, clipped at block zero.
pub fn incremental_window(head: u64) -> (r: BlockWindow)
    ensures
        r.to_block == head,
        r.from_block == if head >= TRAILING_SPAN { head - TRAILING_SPAN } else { 0 },
{
    let from_block = if head >= TRAILING_SPAN { head - TRAILING_SPAN } else { 0 };
    BlockWindow { from_block, to_block: head }
}

/// A step of the background cycle.
#[derive(Debug, Clone, Copy, PartialEq, Eq, Structural)]
pub enum PollStep {
    /// The one full history scan at startup.
    Backfill,
    /// Reconcile explorer transfers.
    Reconcile,
    /// Scan the trailing window for donations.
    ScanRecent,
    /// Wait for the poll interval.
    Sleep,
}

/// The step after `s`, whatever `s` ended in: an error of a step is logged
/// and the cycle goes on.
pub open spec fn step_after(s: PollStep) -> PollStep {
    match s {
        PollStep::Backfill => PollStep::Reconcile,
        PollStep::Reconcile => PollStep::ScanRecent,
        PollStep::ScanRecent => PollStep::Sleep,
        PollStep::Sleep => PollStep::Reconcile,
    }
}

/// The step after `s`.
pub fn next_step(s: PollStep) -> (r: PollStep)
    ensures
        r == step_after(s),
{
    match s {
        PollStep::Backfill => PollStep::Reconcile,
        PollStep::Reconcile => PollStep::ScanRecent,
        PollStep::ScanRecent => PollStep::Sleep,
        PollStep::Sleep => PollStep::Reconcile,
    }
}

} // verus!
