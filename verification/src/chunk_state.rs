//! What the server keeps about a loaded chunk to decide how long it stays.

use vstd::prelude::*;

verus! {

/// The state of a loaded chunk. A chunk is either persistent, and then it
/// is never unloaded for being idle, or it stays loaded for as long as it
/// keeps being touched. Time is counted in ticks.
pub trait ChunkState: Sized {
    /// Whether the chunk is persistent.
    spec fn is_persistant(&self) -> bool;

    /// The tick at which the chunk was last touched.
    spec fn touched_at(&self) -> u64;

    /// The state of a chunk that is first loaded at `current_time`.
    fn new(current_time: u64, persistant: bool) -> (state: Self)
        ensures
            state.is_persistant() == persistant,
            state.touched_at() == current_time,
    ;

    fn persistant(&self) -> (persistant: bool)
        ensures
            persistant == self.is_persistant(),
    ;

    /// Records that the chunk is in use at `current_time`.
    fn touch(&mut self, current_time: u64)
        ensures
            final(self).touched_at() == current_time,
            final(self).is_persistant() == old(self).is_persistant(),
    ;

    fn last_touched(&self) -> (tick: u64)
        ensures
            tick == self.touched_at(),
    ;
}

/// The plain chunk state: the two things that the unloading rule reads.
#[derive(Clone, Copy, Debug, PartialEq, Eq, Structural)]
pub struct DefaultChunkState {
    last_touched: u64,
    persistant: bool,
}

impl Default for DefaultChunkState {
    /// A chunk that is not persistent and was touched at tick 0.
    fn default() -> (state: Self)
        ensures
            !state.is_persistant(),
            state.touched_at() == 0,
    {
        DefaultChunkState { last_touched: 0, persistant: false }
    }
}

impl ChunkState for DefaultChunkState {
    closed spec fn is_persistant(&self) -> bool {
        self.persistant
    }

    closed spec fn touched_at(&self) -> u64 {
        self.last_touched
    }

    fn new(current_time: u64, persistant: bool) -> (state: Self) {
        DefaultChunkState { last_touched: current_time, persistant }
    }

    fn persistant(&self) -> (persistant: bool) {
        self.persistant
    }

    fn touch(&mut self, current_time: u64) {
        self.last_touched = current_time;
    }

    fn last_touched(&self) -> (tick: u64) {
        self.last_touched
    }
}

/// Whether the unloading rule lets go of a chunk at tick `now`: it is not
/// persistent, and more than `delay` ticks have passed since it was last
/// touched.
pub open spec fn is_idle<S: ChunkState>(state: S, now: u64, delay: u64) -> bool {
    !state.is_persistant() && now - state.touched_at() > delay
}

/// Decides whether a chunk is unloaded at tick `now`.
pub fn idle<S: ChunkState>(state: &S, now: u64, delay: u64) -> (unload: bool)
    ensures
        unload == is_idle(*state, now, delay),
{
    if state.persistant() {
        false
    } else {
        let touched = state.last_touched();
        touched <= now && now - touched > delay
    }
}

} // verus!
