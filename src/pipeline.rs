//! The ingestion pipeline's decisions: putting fetched blocks back in height order,
//! and cutting decomposed blocks into batches by weight.
use vstd::prelude::*;

use crate::model::Block;

verus! {

pub open spec fn pending_has<T>(pending: Seq<(u32, T)>, h: int) -> bool {
    exists|i: int| 0 <= i < pending.len() && pending[i].0 == h
}

/// Blocks fetched out of order wait here until every lower height of the range has
/// been handed out; they leave strictly by ascending height.
pub struct ReorderBuffer<T> {
    start: u32,
    end: u32,
    next: u64,
    pending: Vec<(u32, T)>,
    emitted: Ghost<Seq<u32>>,
}

impl<T> ReorderBuffer<T> {
    /// First height of the range.
    pub closed spec fn start(&self) -> int {
        self.start as int
    }

    /// Last height of the range, inclusive.
    pub closed spec fn end(&self) -> int {
        self.end as int
    }

    /// The height that leaves next.
    pub closed spec fn next(&self) -> int {
        self.next as int
    }

    /// Fetched blocks that wait, with their heights.
    pub closed spec fn pending(&self) -> Seq<(u32, T)> {
        self.pending@
    }

    /// The heights handed out so far, in the order they left.
    pub closed spec fn emitted(&self) -> Seq<u32> {
        self.emitted@
    }

    pub closed spec fn wf(&self) -> bool {
        &&& self.start <= self.next
        &&& (self.next <= self.end + 1 || self.next == self.start)
        &&& forall|i: int|
            0 <= i < self.pending@.len() ==> self.next <= #[trigger] self.pending@[i].0
                <= self.end
        &&& forall|i: int, j: int|
            0 <= i < j < self.pending@.len() ==> self.pending@[i].0 != self.pending@[j].0
        &&& self.emitted@.len() == self.next - self.start
        &&& forall|i: int| 0 <= i < self.emitted@.len() ==> self.emitted@[i] == self.start + i
    }

    /// Whatever the order in which blocks arrive, the heights handed out so far are
    /// exactly `start, start + 1, ...` in ascending order, and once the buffer is done
    /// they are the whole range.
    pub proof fn lemma_emitted_in_order(&self)
        requires
            self.wf(),
        ensures
            self.emitted().len() == self.next() - self.start(),
            forall|i: int| 0 <= i < self.emitted().len() ==> self.emitted()[i] == self.start() + i,
            self.next() > self.end() && self.start() <= self.end() + 1 ==> self.emitted().len()
                == self.end() - self.start() + 1,
    {
    }

    /// Whatever the order of arrival: once every height of the range has arrived
    /// (left already or waiting) and the next height is not waiting, which is when
    /// `pop_ready` returns `None`, the buffer is done and the heights handed out are
    /// the whole range `start..=end`, ascending.
    pub proof fn lemma_all_arrived_all_emitted(&self)
        requires
            self.wf(),
            self.start() <= self.end(),
            forall|h: int|
                self.start() <= h <= self.end() ==> h < self.next() || pending_has(
                    self.pending(),
                    h,
                ),
            !pending_has(self.pending(), self.next()),
        ensures
            self.next() == self.end() + 1,
            self.emitted().len() == self.end() - self.start() + 1,
            forall|i: int| 0 <= i < self.emitted().len() ==> self.emitted()[i] == self.start() + i,
    {
        if self.next() <= self.end() {
            assert(self.next() < self.next() || pending_has(self.pending(), self.next()));
        }
    }

    /// A buffer for the heights `start..=end`.
    pub fn new(start: u32, end: u32) -> (r: ReorderBuffer<T>)
        ensures
            r.wf(),
            r.start() == start,
            r.end() == end,
            r.next() == start,
            r.pending().len() == 0,
            r.emitted().len() == 0,
    {
        ReorderBuffer { start, end, next: start as u64, pending: Vec::new(), emitted: Ghost(Seq::empty()) }
    }

    /// Whether every height of the range has been handed out.
    pub fn is_done(&self) -> (r: bool)
        requires
            self.wf(),
        ensures
            r == (self.next() > self.end()),
    {
        self.next > self.end as u64
    }

    /// Whether `height` may be accepted now: inside the range, not handed out, not waiting.
    pub fn can_accept(&self, height: u32) -> (r: bool)
        requires
            self.wf(),
        ensures
            r == (self.next() <= height <= self.end() && !pending_has(self.pending(), height as int)),
    {
        if (height as u64) < self.next || height > self.end {
            return false;
        }
        let mut i: usize = 0;
        while i < self.pending.len()
            invariant
                i <= self.pending@.len(),
                forall|k: int| 0 <= k < i ==> self.pending@[k].0 != height,
            decreases self.pending@.len() - i,
        {
            if self.pending[i].0 == height {
                return false;
            }
            i += 1;
        }
        true
    }

    /// Takes a fetched block, whatever the order of arrival.
    pub fn accept(&mut self, height: u32, item: T)
        requires
            old(self).wf(),
            old(self).next() <= height <= old(self).end(),
            !pending_has(old(self).pending(), height as int),
        ensures
            final(self).wf(),
            final(self).start() == old(self).start(),
            final(self).end() == old(self).end(),
            final(self).next() == old(self).next(),
            final(self).emitted() == old(self).emitted(),
            final(self).pending() == old(self).pending().push((height, item)),
    {
        self.pending.push((height, item));
        proof {
            assert forall|i: int, j: int|
                0 <= i < j < self.pending@.len() implies self.pending@[i].0
                != self.pending@[j].0 by {
                if j == self.pending@.len() - 1 {
                    assert(old(self).pending@[i] == self.pending@[i]);
                }
            }
        }
    }

    /// Hands out the block at the next height if it has arrived.
    pub fn pop_ready(&mut self) -> (r: Option<(u32, T)>)
        requires
            old(self).wf(),
        ensures
            final(self).wf(),
            final(self).start() == old(self).start(),
            final(self).end() == old(self).end(),
            match r {
                Some(p) => {
                    &&& p.0 == old(self).next()
                    &&& final(self).next() == old(self).next() + 1
                    &&& final(self).emitted() == old(self).emitted().push(p.0)
                    &&& exists|i: int|
                        0 <= i < old(self).pending().len() && old(self).pending()[i] == p
                            && final(self).pending() == old(self).pending().remove(i)
                },
                None => {
                    &&& !pending_has(old(self).pending(), old(self).next())
                    &&& final(self).next() == old(self).next()
                    &&& final(self).emitted() == old(self).emitted()
                    &&& final(self).pending() == old(self).pending()
                },
            },
    {
        if self.next > self.end as u64 {
            return None;
        }
        let h = self.next as u32;
        let mut i: usize = 0;
        while i < self.pending.len()
            invariant
                old(self).wf(),
                self.pending@ == old(self).pending@,
                self.start == old(self).start,
                self.end == old(self).end,
                self.next == old(self).next,
                self.emitted@ == old(self).emitted@,
                self.next <= self.end,
                i <= self.pending@.len(),
                h == self.next,
                forall|k: int| 0 <= k < i ==> self.pending@[k].0 != h,
            decreases self.pending@.len() - i,
        {
            if self.pending[i].0 == h {
                let p = self.pending.remove(i);
                self.next = self.next + 1;
                self.emitted = Ghost(self.emitted@.push(h));
                proof {
                    let old_p = old(self).pending@;
                    assert(old_p[i as int] == p);
                    assert(self.pending@ == old_p.remove(i as int));
                    assert forall|k: int| 0 <= k < self.pending@.len() implies self.next
                        <= #[trigger] self.pending@[k].0 <= self.end by {
                        let o = if k < i { k } else { k + 1 };
                        assert(self.pending@[k] == old_p[o]);
                        assert(old_p[o].0 != h);
                    }
                    assert forall|a: int, b: int|
                        0 <= a < b < self.pending@.len() implies self.pending@[a].0
                        != self.pending@[b].0 by {
                        let oa = if a < i { a } else { a + 1 };
                        let ob = if b < i { b } else { b + 1 };
                        assert(self.pending@[a] == old_p[oa]);
                        assert(self.pending@[b] == old_p[ob]);
                    }
                }
                assert(p.0 == old(self).next());
                assert(self.next() == old(self).next() + 1);
                assert(self.emitted() == old(self).emitted().push(p.0));
                assert(0 <= i < old(self).pending().len() && old(self).pending()[i as int] == p
                    && self.pending() == old(self).pending().remove(i as int));
                return Some(p);
            }
            i += 1;
        }
        None
    }
}

/// Accumulates decomposed blocks and closes a batch once its weight reaches the minimum.
pub struct BlockBatcher {
    min_weight: u32,
    current: Vec<Block>,
    current_weight: u64,
}

pub open spec fn total_weight(bs: Seq<Block>) -> int
    decreases bs.len(),
{
    if bs.len() == 0 {
        0
    } else {
        total_weight(bs.drop_last()) + bs.last().weight
    }
}

impl BlockBatcher {
    pub closed spec fn min_weight(&self) -> int {
        self.min_weight as int
    }

    /// The blocks of the batch still open.
    pub closed spec fn current(&self) -> Seq<Block> {
        self.current@
    }

    pub closed spec fn wf(&self) -> bool {
        &&& self.current_weight == total_weight(self.current@)
        &&& self.current_weight < self.min_weight || self.current@.len() == 0
    }

    pub fn new(min_weight: u32) -> (r: BlockBatcher)
        ensures
            r.wf(),
            r.min_weight() == min_weight,
            r.current().len() == 0,
    {
        BlockBatcher { min_weight, current: Vec::new(), current_weight: 0 }
    }

    /// Adds a block; returns the batch it closes, if its weight reaches the minimum.
    pub fn push(&mut self, block: Block) -> (r: Option<Vec<Block>>)
        requires
            old(self).wf(),
        ensures
            final(self).wf(),
            final(self).min_weight() == old(self).min_weight(),
            total_weight(old(self).current()) + block.weight >= old(self).min_weight() ==> {
                &&& r is Some
                &&& r->0@ == old(self).current().push(block)
                &&& final(self).current().len() == 0
            },
            total_weight(old(self).current()) + block.weight < old(self).min_weight() ==> {
                &&& r is None
                &&& final(self).current() == old(self).current().push(block)
            },
    {
        let ghost before = self.current@;
        let w = block.weight as u64;
        self.current.push(block);
        assert(self.current@.drop_last() == before);
        self.current_weight = self.current_weight + w;
        if self.current_weight >= self.min_weight as u64 {
            let mut batch: Vec<Block> = Vec::new();
            core::mem::swap(&mut batch, &mut self.current);
            self.current_weight = 0;
            Some(batch)
        } else {
            None
        }
    }

    /// Closes the open batch at the end of the range, whatever its weight.
    pub fn finish(&mut self) -> (r: Option<Vec<Block>>)
        requires
            old(self).wf(),
        ensures
            final(self).wf(),
            final(self).min_weight() == old(self).min_weight(),
            final(self).current().len() == 0,
            old(self).current().len() == 0 ==> r is None,
            old(self).current().len() > 0 ==> r is Some && r->0@ == old(self).current(),
    {
        if self.current.len() == 0 {
            None
        } else {
            let mut batch: Vec<Block> = Vec::new();
            core::mem::swap(&mut batch, &mut self.current);
            self.current_weight = 0;
            Some(batch)
        }
    }
}

} // verus!
