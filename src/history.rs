//! Bounded, time-ordered record of the player's past positions.

use vstd::prelude::*;
use std::collections::VecDeque;
use crate::geom::Vec2;

verus! {

/// Seconds of movement kept for ghost replays.
pub const INPUT_HISTORY_SECONDS: usize = 12;

/// Samples kept: one per tick over `INPUT_HISTORY_SECONDS`.
pub const HISTORY_CAPACITY: usize = 720;

/// `s` after dropping its oldest samples until at most `cap` remain.
pub open spec fn keep_newest(s: Seq<Vec2>, cap: nat) -> Seq<Vec2> {
    if s.len() > cap {
        s.subrange(s.len() - cap, s.len() as int)
    } else {
        s
    }
}

pub struct HistoryBuffer {
    frames: VecDeque<Vec2>,
    capacity: usize,
}

impl View for HistoryBuffer {
    type V = Seq<Vec2>;

    closed spec fn view(&self) -> Seq<Vec2> {
        self.frames@
    }
}

impl HistoryBuffer {
    pub closed spec fn capacity_spec(&self) -> nat {
        self.capacity as nat
    }

    pub open spec fn wf(&self) -> bool {
        &&& 0 < self.capacity_spec()
        &&& self@.len() <= self.capacity_spec()
    }

    pub fn new(capacity: usize) -> (r: HistoryBuffer)
        requires
            0 < capacity,
        ensures
            r.wf(),
            r@ == Seq::<Vec2>::empty(),
            r.capacity_spec() == capacity,
    {
        HistoryBuffer { frames: VecDeque::new(), capacity }
    }

    pub fn capacity(&self) -> (r: usize)
        ensures
            r == self.capacity_spec(),
    {
        self.capacity
    }

    pub fn len(&self) -> (r: usize)
        ensures
            r == self@.len(),
    {
        self.frames.len()
    }

    /// Appends `pos`, evicting the oldest samples beyond the capacity.
    pub fn record(&mut self, pos: Vec2)
        requires
            old(self).wf(),
        ensures
            final(self).wf(),
            final(self)@ == keep_newest(old(self)@.push(pos), old(self).capacity_spec()),
            final(self).capacity_spec() == old(self).capacity_spec(),
    {
        let ghost start = self@.push(pos);
        self.frames.push_back(pos);
        assert(start.subrange(0, start.len() as int) =~= start);
        while self.frames.len() > self.capacity
            invariant
                0 < self.capacity,
                self.capacity == old(self).capacity,
                start.len() <= self.capacity + 1,
                self@.len() <= start.len(),
                self@.len() >= self.capacity || self@.len() == start.len(),
                self@ == start.subrange(start.len() - self@.len(), start.len() as int),
            decreases self@.len(),
        {
            self.frames.pop_front();
            assert(self@ =~= start.subrange(start.len() - self@.len(), start.len() as int));
        }
        proof {
            if start.len() <= self.capacity {
                assert(self@ =~= start);
            } else {
                assert(self@.len() == self.capacity);
            }
        }
    }

    /// Copies of the newest `k` samples, oldest first.
    pub fn newest(&self, k: usize) -> (r: Vec<Vec2>)
        requires
            k <= self@.len(),
        ensures
            r@ == self@.subrange(self@.len() - k, self@.len() as int),
    {
        let n = self.frames.len();
        let start = n - k;
        let mut out: Vec<Vec2> = Vec::new();
        let mut i = start;
        while i < n
            invariant
                start <= i <= n,
                n == self@.len(),
                start == n - k,
                out@ == self@.subrange(start as int, i as int),
            decreases n - i,
        {
            out.push(self.frames[i]);
            i = i + 1;
            assert(out@ =~= self@.subrange(start as int, i as int));
        }
        out
    }
}

} // verus!
