//! The live set: the chunks that are loaded, each with its state.

use crate::chunk::{Chunk, ChunkPos};
use crate::chunk_state::{idle, is_idle, ChunkState};
use crate::terrain::Block;
use vstd::prelude::*;

verus! {

/// A chunk in the live set.
pub struct LoadedChunk<S> {
    /// Where the chunk lies.
    pub pos: ChunkPos,
    /// What decides how long the chunk stays.
    pub state: S,
    /// The chunk's blocks.
    pub chunk: Chunk,
    /// Whether terrain has been generated into the chunk. A chunk enters
    /// the live set as an empty shell.
    pub filled: bool,
}

/// The chunks that are loaded, at most one at each position, all of one
/// height, together with the count of ticks so far.
pub struct Chunks<S> {
    entries: Vec<LoadedChunk<S>>,
    section_count: u8,
    tick: u64,
}

spec fn holds<S>(entries: Seq<LoadedChunk<S>>, p: ChunkPos) -> bool {
    exists|i: int| 0 <= i < entries.len() && (#[trigger] entries[i]).pos == p
}

spec fn slot<S>(entries: Seq<LoadedChunk<S>>, p: ChunkPos) -> int {
    choose|i: int| 0 <= i < entries.len() && (#[trigger] entries[i]).pos == p
}

spec fn unique<S>(entries: Seq<LoadedChunk<S>>) -> bool {
    forall|i: int, j: int|
        #![trigger entries[i], entries[j]]
        0 <= i < j < entries.len() ==> entries[i].pos != entries[j].pos
}

spec fn map_of<S>(entries: Seq<LoadedChunk<S>>) -> Map<ChunkPos, LoadedChunk<S>> {
    Map::new(|p: ChunkPos| holds(entries, p), |p: ChunkPos| entries[slot(entries, p)])
}

proof fn lemma_slot<S>(entries: Seq<LoadedChunk<S>>, i: int)
    requires
        unique(entries),
        0 <= i < entries.len(),
    ensures
        holds(entries, entries[i].pos),
        slot(entries, entries[i].pos) == i,
        map_of(entries)[entries[i].pos] == entries[i],
{
    let p = entries[i].pos;
    let j = slot(entries, p);
    assert(0 <= j < entries.len() && entries[j].pos == p);
    if j < i {
        assert(entries[j].pos != entries[i].pos);
    } else if i < j {
        assert(entries[i].pos != entries[j].pos);
    }
}

proof fn lemma_push<S>(entries: Seq<LoadedChunk<S>>, entry: LoadedChunk<S>)
    requires
        unique(entries),
        !holds(entries, entry.pos),
    ensures
        unique(entries.push(entry)),
        map_of(entries.push(entry)) == map_of(entries).insert(entry.pos, entry),
{
    let grown = entries.push(entry);
    assert forall|i: int, j: int| 0 <= i < j < grown.len() implies (#[trigger] grown[i]).pos != (
    #[trigger] grown[j]).pos by {
        if j == entries.len() {
            assert(entries[i].pos != entry.pos);
        } else {
            assert(entries[i].pos != entries[j].pos);
        }
    }
    assert forall|p: ChunkPos| holds(grown, p) <==> (p == entry.pos || holds(entries, p)) by {
        if holds(grown, p) {
            let i = slot(grown, p);
            if i < entries.len() {
                assert(entries[i].pos == p);
            }
        }
        if p == entry.pos {
            assert(grown[entries.len() as int].pos == p);
        }
        if holds(entries, p) {
            let i = slot(entries, p);
            assert(grown[i].pos == p);
        }
    }
    assert forall|p: ChunkPos| holds(grown, p) implies #[trigger] map_of(grown)[p] == map_of(
        entries,
    ).insert(entry.pos, entry)[p] by {
        let i = slot(grown, p);
        lemma_slot(grown, i);
        if i < entries.len() {
            lemma_slot(entries, i);
        }
    }
    assert(map_of(grown) =~= map_of(entries).insert(entry.pos, entry));
}

proof fn lemma_swap_remove<S>(entries: Seq<LoadedChunk<S>>, at: int)
    requires
        unique(entries),
        0 <= at < entries.len(),
    ensures
        unique(entries.update(at, entries.last()).drop_last()),
        map_of(entries.update(at, entries.last()).drop_last()) == map_of(entries).remove(
            entries[at].pos,
        ),
{
    let rest = entries.update(at, entries.last()).drop_last();
    let last = entries.len() - 1;
    let gone = entries[at].pos;
    assert forall|i: int, j: int| 0 <= i < j < rest.len() implies (#[trigger] rest[i]).pos != (
    #[trigger] rest[j]).pos by {
        let si = if i == at {
            last
        } else {
            i
        };
        let sj = if j == at {
            last
        } else {
            j
        };
        if si < sj {
            assert(entries[si].pos != entries[sj].pos);
        } else {
            assert(entries[sj].pos != entries[si].pos);
        }
    }
    assert forall|p: ChunkPos| holds(rest, p) <==> (p != gone && holds(entries, p)) by {
        if holds(rest, p) {
            let i = slot(rest, p);
            let si = if i == at {
                last
            } else {
                i
            };
            assert(entries[si].pos == p);
            if si < at {
                assert(entries[si].pos != entries[at].pos);
            } else {
                assert(entries[at].pos != entries[si].pos);
            }
        }
        if p != gone && holds(entries, p) {
            let i = slot(entries, p);
            if i == last {
                assert(rest[at].pos == p);
            } else {
                assert(rest[i].pos == p);
            }
        }
    }
    assert forall|p: ChunkPos| holds(rest, p) implies #[trigger] map_of(rest)[p] == map_of(
        entries,
    )[p] by {
        let i = slot(rest, p);
        lemma_slot(rest, i);
        let si = if i == at {
            last
        } else {
            i
        };
        lemma_slot(entries, si);
    }
    assert(map_of(rest) =~= map_of(entries).remove(gone));
}

/// An entry as it is after a touch at tick `now`: only its state moved on.
pub open spec fn touched<S: ChunkState>(
    before: LoadedChunk<S>,
    after: LoadedChunk<S>,
    now: u64,
) -> bool {
    &&& after.pos == before.pos
    &&& after.chunk == before.chunk
    &&& after.filled == before.filled
    &&& after.state.touched_at() == now
    &&& after.state.is_persistant() == before.state.is_persistant()
}

/// An entry as it enters the live set: an empty shell of air, touched at
/// tick `now`.
pub open spec fn is_shell<S: ChunkState>(
    entry: LoadedChunk<S>,
    pos: ChunkPos,
    now: u64,
    persistant: bool,
    levels: int,
) -> bool {
    &&& entry.pos == pos
    &&& !entry.filled
    &&& entry.state.touched_at() == now
    &&& entry.state.is_persistant() == persistant
    &&& entry.chunk@.len() == levels * 256
    &&& forall|i: int| 0 <= i < entry.chunk@.len() ==> entry.chunk@[i] == Block::Air
}

/// Whether two live sets hold the same chunks everywhere but at `pos`.
pub open spec fn same_elsewhere<S>(
    before: Map<ChunkPos, LoadedChunk<S>>,
    after: Map<ChunkPos, LoadedChunk<S>>,
    pos: ChunkPos,
) -> bool {
    forall|p: ChunkPos|
        #![trigger after[p]]
        p != pos && before.contains_key(p) ==> after[p] == before[p]
}

/// Whether `after` is what a sweep at tick `now` leaves of `before`: the
/// chunks that are not idle under the unload delay, each as it was.
pub open spec fn swept<S: ChunkState>(
    before: Map<ChunkPos, LoadedChunk<S>>,
    after: Map<ChunkPos, LoadedChunk<S>>,
    now: u64,
    delay: u64,
) -> bool {
    &&& forall|p: ChunkPos|
        #![trigger after.contains_key(p)]
        after.contains_key(p) <==> before.contains_key(p) && !is_idle(before[p].state, now, delay)
    &&& forall|p: ChunkPos|
        #![trigger after.contains_key(p)]
        #![trigger after[p]]
        after.contains_key(p) ==> after[p] == before[p]
}

/// The tick after `now`. The count of ticks stops at its largest value.
pub open spec fn next_tick(now: u64) -> u64 {
    if now < u64::MAX {
        (now + 1) as u64
    } else {
        now
    }
}

/// A sweep never lets go of a persistent chunk, however long it was idle.
pub proof fn lemma_sweep_keeps_persistent<S: ChunkState>(
    before: Map<ChunkPos, LoadedChunk<S>>,
    after: Map<ChunkPos, LoadedChunk<S>>,
    now: u64,
    delay: u64,
    pos: ChunkPos,
)
    requires
        swept(before, after, now, delay),
        before.contains_key(pos),
        before[pos].state.is_persistant(),
    ensures
        after.contains_key(pos),
        after[pos] == before[pos],
{
}

/// A sweep lets go of every chunk that is not persistent and has not been
/// touched for more ticks than the unload delay.
pub proof fn lemma_sweep_lets_go_of_idle<S: ChunkState>(
    before: Map<ChunkPos, LoadedChunk<S>>,
    after: Map<ChunkPos, LoadedChunk<S>>,
    now: u64,
    delay: u64,
    pos: ChunkPos,
)
    requires
        swept(before, after, now, delay),
        before.contains_key(pos),
        !before[pos].state.is_persistant(),
        now - before[pos].state.touched_at() > delay,
    ensures
        !after.contains_key(pos),
{
}

impl<S: ChunkState> View for Chunks<S> {
    type V = Map<ChunkPos, LoadedChunk<S>>;

    /// The loaded chunks by position.
    closed spec fn view(&self) -> Map<ChunkPos, LoadedChunk<S>> {
        map_of(self.entries@)
    }
}

impl<S: ChunkState> Chunks<S> {
    /// No position is taken twice, and every chunk has the set's height.
    pub closed spec fn wf(&self) -> bool {
        &&& unique(self.entries@)
        &&& forall|i: int|
            0 <= i < self.entries@.len() ==> (#[trigger] self.entries@[i]).chunk@.len()
                == self.levels() * 256
    }

    /// The tick that the set is in.
    pub closed spec fn now(&self) -> u64 {
        self.tick
    }

    /// The height of every chunk of the set, in blocks.
    pub closed spec fn levels(&self) -> int {
        self.section_count * 16
    }

    /// Every chunk is kept under its own position and has the set's height.
    pub proof fn lemma_entries(&self, pos: ChunkPos)
        requires
            self.wf(),
            self@.contains_key(pos),
        ensures
            self@[pos].pos == pos,
            self@[pos].chunk@.len() == self.levels() * 256,
            self@[pos].chunk.levels() == self.levels(),
            0 <= self.levels() <= 4080,
    {
        let i = slot(self.entries@, pos);
        assert(self.entries@[i].pos == pos);
    }

    /// An empty live set at tick 0, for chunks of `section_count` sections
    /// of 16 levels.
    pub fn new(section_count: u8) -> (chunks: Chunks<S>)
        ensures
            chunks.wf(),
            chunks@ == Map::<ChunkPos, LoadedChunk<S>>::empty(),
            chunks.now() == 0,
            chunks.levels() == section_count * 16,
    {
        let chunks = Chunks { entries: Vec::new(), section_count, tick: 0 };
        assert(chunks@ =~= Map::<ChunkPos, LoadedChunk<S>>::empty());
        chunks
    }

    /// The tick that the set is in.
    pub fn tick(&self) -> (tick: u64)
        ensures
            tick == self.now(),
    {
        self.tick
    }

    /// The height of every chunk of the set, in blocks.
    pub fn height(&self) -> (height: usize)
        ensures
            height == self.levels(),
    {
        self.section_count as usize * 16
    }

    fn find(&self, pos: ChunkPos) -> (r: Option<usize>)
        requires
            self.wf(),
        ensures
            match r {
                Some(i) => i < self.entries@.len() && self.entries@[i as int].pos == pos
                    && self@.contains_key(pos) && self@[pos] == self.entries@[i as int],
                None => !self@.contains_key(pos),
            },
    {
        let mut i: usize = 0;
        while i < self.entries.len()
            invariant
                self.wf(),
                i <= self.entries@.len(),
                forall|j: int| 0 <= j < i ==> (#[trigger] self.entries@[j]).pos != pos,
            decreases self.entries@.len() - i,
        {
            if self.entries[i].pos == pos {
                proof {
                    lemma_slot(self.entries@, i as int);
                }
                return Some(i);
            }
            i += 1;
        }
        None
    }

    /// The loaded chunk at a position.
    pub fn get(&self, pos: ChunkPos) -> (r: Option<&LoadedChunk<S>>)
        requires
            self.wf(),
        ensures
            match r {
                Some(entry) => self@.contains_key(pos) && self@[pos] == *entry && entry.pos == pos,
                None => !self@.contains_key(pos),
            },
    {
        match self.find(pos) {
            Some(i) => Some(&self.entries[i]),
            None => None,
        }
    }

    /// Takes the chunk at a position out of the set.
    pub fn remove(&mut self, pos: ChunkPos) -> (r: Option<LoadedChunk<S>>)
        requires
            old(self).wf(),
        ensures
            final(self).wf(),
            final(self).now() == old(self).now(),
            final(self).levels() == old(self).levels(),
            final(self)@ == old(self)@.remove(pos),
            match r {
                Some(entry) => old(self)@.contains_key(pos) && old(self)@[pos] == entry
                    && entry.pos == pos && entry.chunk@.len() == old(self).levels() * 256,
                None => !old(self)@.contains_key(pos),
            },
    {
        match self.find(pos) {
            Some(i) => {
                proof {
                    lemma_swap_remove(self.entries@, i as int);
                }
                let entry = self.entries.swap_remove(i);
                Some(entry)
            },
            None => {
                assert(self@ =~= self@.remove(pos));
                None
            },
        }
    }

    /// Puts a chunk into the set, in place of any at its position.
    pub fn insert(&mut self, entry: LoadedChunk<S>)
        requires
            old(self).wf(),
            entry.chunk@.len() == old(self).levels() * 256,
        ensures
            final(self).wf(),
            final(self).now() == old(self).now(),
            final(self).levels() == old(self).levels(),
            final(self)@ == old(self)@.insert(entry.pos, entry),
    {
        let _ = self.remove(entry.pos);
        proof {
            assert(!self@.contains_key(entry.pos));
            lemma_push(self.entries@, entry);
            assert(old(self)@.remove(entry.pos).insert(entry.pos, entry) =~= old(self)@.insert(
                entry.pos,
                entry,
            ));
        }
        self.entries.push(entry);
    }

    /// Records that the chunk at a position is in use at the current tick.
    /// Says whether there is such a chunk.
    pub fn touch(&mut self, pos: ChunkPos) -> (loaded: bool)
        requires
            old(self).wf(),
        ensures
            final(self).wf(),
            final(self).now() == old(self).now(),
            final(self).levels() == old(self).levels(),
            loaded == old(self)@.contains_key(pos),
            final(self)@.dom() == old(self)@.dom(),
            same_elsewhere(old(self)@, final(self)@, pos),
            loaded ==> touched(old(self)@[pos], final(self)@[pos], old(self).now()),
    {
        let now = self.tick;
        match self.remove(pos) {
            Some(entry) => {
                let mut entry = entry;
                entry.state.touch(now);
                self.insert(entry);
                assert(final(self)@.dom() =~= old(self)@.dom());
                true
            },
            None => {
                assert(final(self)@ =~= old(self)@);
                false
            },
        }
    }

    /// Puts an empty shell of air at a position, touched at the current
    /// tick, in place of any chunk there.
    pub fn insert_shell(&mut self, pos: ChunkPos, persistant: bool)
        requires
            old(self).wf(),
        ensures
            final(self).wf(),
            final(self).now() == old(self).now(),
            final(self).levels() == old(self).levels(),
            final(self)@.dom() == old(self)@.dom().insert(pos),
            same_elsewhere(old(self)@, final(self)@, pos),
            is_shell(final(self)@[pos], pos, old(self).now(), persistant, old(self).levels()),
    {
        let entry = LoadedChunk {
            pos,
            state: S::new(self.tick, persistant),
            chunk: Chunk::new(self.section_count),
            filled: false,
        };
        self.insert(entry);
        assert(final(self)@.dom() =~= old(self)@.dom().insert(pos));
    }

    /// The positions of the loaded chunks, each once.
    pub fn positions(&self) -> (positions: Vec<ChunkPos>)
        requires
            self.wf(),
        ensures
            forall|p: ChunkPos| positions@.contains(p) <==> self@.contains_key(p),
            positions@.no_duplicates(),
    {
        let mut positions: Vec<ChunkPos> = Vec::new();
        let mut i: usize = 0;
        while i < self.entries.len()
            invariant
                self.wf(),
                i <= self.entries@.len(),
                positions@.len() == i,
                forall|j: int| 0 <= j < i ==> #[trigger] positions@[j] == self.entries@[j].pos,
            decreases self.entries@.len() - i,
        {
            positions.push(self.entries[i].pos);
            i += 1;
        }
        proof {
            assert forall|p: ChunkPos| positions@.contains(p) <==> self@.contains_key(p) by {
                if positions@.contains(p) {
                    let j = choose|j: int| 0 <= j < positions@.len() && positions@[j] == p;
                    lemma_slot(self.entries@, j);
                }
                if self@.contains_key(p) {
                    let j = slot(self.entries@, p);
                    assert(self.entries@[j].pos == p);
                    assert(positions@[j] == p);
                }
            }
            assert forall|a: int, b: int|
                0 <= a < positions@.len() && 0 <= b < positions@.len() && a != b implies
                positions@[a] != positions@[b] by {
                if a < b {
                    assert(self.entries@[a].pos != self.entries@[b].pos);
                } else {
                    assert(self.entries@[b].pos != self.entries@[a].pos);
                }
            }
        }
        positions
    }

    /// The positions of the chunks that are still empty shells, each once.
    pub fn unfilled(&self) -> (positions: Vec<ChunkPos>)
        requires
            self.wf(),
        ensures
            forall|p: ChunkPos|
                positions@.contains(p) <==> self@.contains_key(p) && !self@[p].filled,
            positions@.no_duplicates(),
    {
        let mut positions: Vec<ChunkPos> = Vec::new();
        let ghost mut picked: Seq<int> = Seq::empty();
        let mut i: usize = 0;
        while i < self.entries.len()
            invariant
                self.wf(),
                i <= self.entries@.len(),
                positions@.len() == picked.len(),
                forall|k: int|
                    0 <= k < picked.len() ==> 0 <= #[trigger] picked[k] < i
                        && !self.entries@[picked[k]].filled && positions@[k]
                        == self.entries@[picked[k]].pos,
                forall|a: int, b: int| 0 <= a < b < picked.len() ==> picked[a] < picked[b],
                forall|j: int|
                    0 <= j < i && !(#[trigger] self.entries@[j]).filled ==> picked.contains(j),
            decreases self.entries@.len() - i,
        {
            if !self.entries[i].filled {
                positions.push(self.entries[i].pos);
                proof {
                    let before = picked;
                    picked = picked.push(i as int);
                    assert forall|j: int|
                        0 <= j < i + 1 && !(#[trigger] self.entries@[j]).filled implies
                        picked.contains(j) by {
                        if j < i {
                            let k = choose|k: int| 0 <= k < before.len() && before[k] == j;
                            assert(picked[k] == j);
                        } else {
                            assert(picked[before.len() as int] == j);
                        }
                    }
                }
            }
            i += 1;
        }
        proof {
            assert forall|p: ChunkPos|
                positions@.contains(p) <==> self@.contains_key(p) && !self@[p].filled by {
                if positions@.contains(p) {
                    let k = choose|k: int| 0 <= k < positions@.len() && positions@[k] == p;
                    lemma_slot(self.entries@, picked[k]);
                }
                if self@.contains_key(p) && !self@[p].filled {
                    let j = slot(self.entries@, p);
                    assert(self.entries@[j].pos == p);
                    lemma_slot(self.entries@, j);
                    let k = choose|k: int| 0 <= k < picked.len() && picked[k] == j;
                    assert(positions@[k] == p);
                }
            }
            assert forall|a: int, b: int|
                0 <= a < positions@.len() && 0 <= b < positions@.len() && a != b implies
                positions@[a] != positions@[b] by {
                if a < b {
                    assert(picked[a] < picked[b]);
                    assert(self.entries@[picked[a]].pos != self.entries@[picked[b]].pos);
                } else {
                    assert(picked[b] < picked[a]);
                    assert(self.entries@[picked[b]].pos != self.entries@[picked[a]].pos);
                }
            }
        }
        positions
    }

    /// Ends a tick: lets go of every chunk that is idle at the current tick
    /// under the unload delay, keeps all others as they are, and moves on
    /// to the next tick. A persistent chunk is never let go.
    pub fn sweep(&mut self, delay: u64)
        requires
            old(self).wf(),
        ensures
            final(self).wf(),
            final(self).levels() == old(self).levels(),
            final(self).now() == next_tick(old(self).now()),
            swept(old(self)@, final(self)@, old(self).now(), delay),
    {
        let now = self.tick;
        let mut i: usize = 0;
        while i < self.entries.len()
            invariant
                self.wf(),
                self.tick == now,
                now == old(self).now(),
                self.levels() == old(self).levels(),
                i <= self.entries@.len(),
                forall|p: ChunkPos|
                    #![trigger self@.contains_key(p)]
                    self@.contains_key(p) ==> old(self)@.contains_key(p) && self@[p] == old(
                        self,
                    )@[p],
                forall|p: ChunkPos|
                    #![trigger old(self)@.contains_key(p)]
                    old(self)@.contains_key(p) && !self@.contains_key(p) ==> is_idle(
                        old(self)@[p].state,
                        now,
                        delay,
                    ),
                forall|j: int|
                    0 <= j < i ==> !is_idle((#[trigger] self.entries@[j]).state, now, delay),
            decreases self.entries@.len() - i,
        {
            if idle(&self.entries[i].state, now, delay) {
                let ghost before = self.entries@;
                let ghost prev = self@;
                assert(forall|p: ChunkPos|
                    #![trigger prev.contains_key(p)]
                    prev.contains_key(p) ==> old(self)@.contains_key(p) && prev[p] == old(
                        self,
                    )@[p]);
                proof {
                    lemma_slot(self.entries@, i as int);
                    lemma_swap_remove(self.entries@, i as int);
                }
                let _ = self.entries.swap_remove(i);
                assert(self@ == prev.remove(before[i as int].pos));
            } else {
                i += 1;
            }
        }
        let ghost kept = self@;
        proof {
            assert forall|p: ChunkPos| kept.contains_key(p) implies old(self)@.contains_key(p)
                && kept[p] == old(self)@[p] && !is_idle(old(self)@[p].state, now, delay) by {
                let j = slot(self.entries@, p);
                assert(self.entries@[j].pos == p);
                lemma_slot(self.entries@, j);
            }
            assert forall|p: ChunkPos|
                old(self)@.contains_key(p) && !kept.contains_key(p) implies is_idle(
                old(self)@[p].state,
                now,
                delay,
            ) by {}
        }
        if self.tick < u64::MAX {
            self.tick = self.tick + 1;
        }
        assert(self@ == kept);
    }
}

} // verus!
