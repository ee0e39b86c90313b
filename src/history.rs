//! Time-ordered trails of positions, pruned to a fixed horizon.
use std::collections::VecDeque;
use vstd::prelude::*;

use crate::vector::Vec2;

verus! {

/// What the pointer is doing.
#[derive(Clone, Copy, Debug, PartialEq, Eq, Structural)]
pub enum CursorState {
    Idle,
    Attack,
    Defend,
}

/// One recorded sample of a trail.
#[derive(Clone, Copy, Debug, PartialEq, Eq, Structural)]
pub struct CursorEntry {
    /// Position in the world.
    pub world_pos: Vec2,
    /// Position relative to the player.
    pub relative_pos: Vec2,
    /// Time at which the position was recorded, in milliseconds.
    pub time: i64,
    pub state: CursorState,
}

/// Timestamps never decrease along the sequence.
pub open spec fn time_ordered(s: Seq<CursorEntry>) -> bool {
    forall|i: int, j: int| 0 <= i <= j < s.len() ==> s[i].time <= s[j].time
}

/// An entry is still inside the horizon at time `now`.
pub open spec fn fresh(e: CursorEntry, now: int, horizon: int) -> bool {
    now - e.time < horizon
}

/// `new` is `old` without the entries that left the horizon: a suffix of `old` that
/// holds every fresh entry and no stale one.
pub open spec fn pruned_from(old: Seq<CursorEntry>, new: Seq<CursorEntry>, now: int, horizon: int) -> bool {
    &&& new.len() <= old.len()
    &&& new == old.subrange(old.len() - new.len(), old.len() as int)
    &&& forall|i: int| 0 <= i < old.len() - new.len() ==> !fresh(#[trigger] old[i], now, horizon)
    &&& forall|i: int| 0 <= i < new.len() ==> fresh(#[trigger] new[i], now, horizon)
}

/// Index at which the final run of entries in state `st` begins (the length when the
/// last entry is in another state).
pub open spec fn run_start(s: Seq<CursorEntry>, st: CursorState) -> int
    decreases s.len(),
{
    if s.len() == 0 {
        0
    } else if s.last().state != st {
        s.len() as int
    } else {
        run_start(s.drop_last(), st)
    }
}

/// Index of the last entry in state `st`, or -1 when there is none.
pub open spec fn last_in_state(s: Seq<CursorEntry>, st: CursorState) -> int
    decreases s.len(),
{
    if s.len() == 0 {
        -1
    } else if s.last().state == st {
        s.len() - 1
    } else {
        last_in_state(s.drop_last(), st)
    }
}

/// The last entry in state `st` lies in the sequence and is in that state.
pub proof fn lemma_last_in_state(s: Seq<CursorEntry>, st: CursorState)
    ensures
        -1 <= last_in_state(s, st) < s.len(),
        last_in_state(s, st) >= 0 ==> s[last_in_state(s, st)].state == st,
    decreases s.len(),
{
    if s.len() > 0 && s.last().state != st {
        lemma_last_in_state(s.drop_last(), st);
    }
}

/// A trail that got no sample after `last` is empty once pruned at a time more than
/// `horizon` past `last`.
pub proof fn lemma_quiet_trail_empties(old: Seq<CursorEntry>, new: Seq<CursorEntry>, last: int, now: int, horizon: int)
    requires
        forall|i: int| 0 <= i < old.len() ==> (#[trigger] old[i]).time <= last,
        now - last > horizon,
        pruned_from(old, new, now, horizon),
    ensures
        new.len() == 0,
{
    if new.len() > 0 {
        assert(new[0] == old[old.len() - new.len()]);
        assert(fresh(new[0], now, horizon));
    }
}

/// While every sample of a trail is still inside the horizon, pruning keeps it whole, so
/// a trail that gets a sample each tick grows until its oldest sample leaves the horizon.
pub proof fn lemma_fresh_trail_kept(old: Seq<CursorEntry>, new: Seq<CursorEntry>, now: int, horizon: int)
    requires
        forall|i: int| 0 <= i < old.len() ==> fresh(#[trigger] old[i], now, horizon),
        pruned_from(old, new, now, horizon),
    ensures
        new == old,
{
    if new.len() < old.len() {
        assert(fresh(old[0], now, horizon));
    }
    assert(old.subrange(0, old.len() as int) =~= old);
}

/// A trail whose samples come at strictly increasing times (one per tick of at least a
/// millisecond), all recorded by `now` and inside the horizon, holds at most `horizon`
/// samples.
pub proof fn lemma_trail_bounded(s: Seq<CursorEntry>, now: int, horizon: int)
    requires
        forall|i: int| 0 <= i < s.len() - 1 ==> (#[trigger] s[i]).time < s[i + 1].time,
        forall|i: int| 0 <= i < s.len() ==> (#[trigger] s[i]).time <= now,
        forall|i: int| 0 <= i < s.len() ==> fresh(#[trigger] s[i], now, horizon),
    ensures
        s.len() <= horizon || s.len() == 0,
{
    if s.len() > 0 {
        lemma_times_spread(s, s.len() - 1);
        assert(fresh(s[0], now, horizon));
        assert(s[s.len() - 1].time <= now);
    }
}

proof fn lemma_times_spread(s: Seq<CursorEntry>, k: int)
    requires
        0 <= k < s.len(),
        forall|i: int| 0 <= i < s.len() - 1 ==> (#[trigger] s[i]).time < s[i + 1].time,
    ensures
        s[k].time >= s[0].time + k,
    decreases k,
{
    if k > 0 {
        lemma_times_spread(s, k - 1);
        assert(s[k - 1].time < s[k].time);
    }
}

/// A time-ordered trail of samples.
#[derive(Debug)]
pub struct History {
    entries: VecDeque<CursorEntry>,
}

impl View for History {
    type V = Seq<CursorEntry>;

    closed spec fn view(&self) -> Seq<CursorEntry> {
        self.entries@
    }
}

impl History {
    pub open spec fn wf(&self) -> bool {
        time_ordered(self@)
    }

    pub fn new() -> (r: History)
        ensures
            r@ == Seq::<CursorEntry>::empty(),
            r.wf(),
    {
        History { entries: VecDeque::new() }
    }

    pub fn len(&self) -> (r: usize)
        ensures
            r == self@.len(),
    {
        self.entries.len()
    }

    pub fn is_empty(&self) -> (r: bool)
        ensures
            r == (self@.len() == 0),
    {
        self.entries.len() == 0
    }

    pub fn get(&self, i: usize) -> (r: Option<CursorEntry>)
        ensures
            i < self@.len() ==> r == Some(self@[i as int]),
            i >= self@.len() ==> r.is_none(),
    {
        if i < self.entries.len() {
            Some(self.entries[i])
        } else {
            None
        }
    }

    /// Appends a sample; time must not run backwards.
    pub fn push(&mut self, e: CursorEntry)
        requires
            old(self).wf(),
            old(self)@.len() > 0 ==> old(self)@.last().time <= e.time,
        ensures
            final(self)@ == old(self)@.push(e),
            final(self).wf(),
    {
        self.entries.push_back(e);
    }

    /// Drops the leading entries that are `horizon` or more older than `now`.
    pub fn prune(&mut self, now: i64, horizon: i64)
        requires
            old(self).wf(),
        ensures
            pruned_from(old(self)@, final(self)@, now as int, horizon as int),
            final(self).wf(),
    {
        let ghost start = self@;
        let ghost mut k: int = 0;
        loop
            invariant
                0 <= k <= start.len(),
                self@ == start.subrange(k, start.len() as int),
                time_ordered(start),
                forall|i: int| 0 <= i < k ==> !fresh(#[trigger] start[i], now as int, horizon as int),
            ensures
                0 <= k <= start.len(),
                self@ == start.subrange(k, start.len() as int),
                forall|i: int| 0 <= i < k ==> !fresh(#[trigger] start[i], now as int, horizon as int),
                self@.len() > 0 ==> fresh(self@[0], now as int, horizon as int),
            decreases self@.len(),
        {
            if self.entries.len() == 0 {
                break;
            }
            let first = self.entries[0];
            if (now as i128) - (first.time as i128) < horizon as i128 {
                break;
            }
            self.entries.pop_front();
            proof {
                k = k + 1;
            }
        }
        proof {
            assert forall|i: int| 0 <= i < self@.len() implies fresh(
                #[trigger] self@[i],
                now as int,
                horizon as int,
            ) by {
                assert(self@[0] == start[k]);
                assert(self@[i] == start[k + i]);
            }
        }
    }

    /// Index where the final run of entries in state `st` begins, among the first `upto`.
    pub fn run_start(&self, upto: usize, st: CursorState) -> (r: usize)
        requires
            upto <= self@.len(),
        ensures
            r == run_start(self@.subrange(0, upto as int), st),
            r <= upto,
            forall|i: int| r <= i < upto ==> (#[trigger] self@[i]).state == st,
            r > 0 ==> self@[r - 1].state != st,
    {
        let mut i = upto;
        while i > 0 && self.entries[i - 1].state == st
            invariant
                i <= upto <= self@.len(),
                run_start(self@.subrange(0, upto as int), st) == run_start(self@.subrange(0, i as int), st),
                forall|j: int| i <= j < upto ==> (#[trigger] self@[j]).state == st,
            decreases i,
        {
            proof {
                assert(self@.subrange(0, i as int).drop_last() =~= self@.subrange(0, i - 1));
            }
            i = i - 1;
        }
        proof {
            if i > 0 {
                assert(self@.subrange(0, i as int).last() == self@[i - 1]);
            }
        }
        i
    }

    /// Index of the last entry in state `st`, if any.
    pub fn last_in_state(&self, st: CursorState) -> (r: Option<usize>)
        ensures
            match r {
                Some(i) => i == last_in_state(self@, st) && i < self@.len() && self@[i as int].state == st,
                None => last_in_state(self@, st) == -1,
            },
    {
        proof {
            lemma_last_in_state(self@, st);
        }
        let mut i = self.entries.len();
        proof {
            assert(self@.subrange(0, self@.len() as int) =~= self@);
        }
        while i > 0 && self.entries[i - 1].state != st
            invariant
                i <= self@.len(),
                last_in_state(self@, st) == last_in_state(self@.subrange(0, i as int), st),
            decreases i,
        {
            proof {
                assert(self@.subrange(0, i as int).drop_last() =~= self@.subrange(0, i - 1));
            }
            i = i - 1;
        }
        if i == 0 {
            None
        } else {
            proof {
                assert(self@.subrange(0, i as int).last() == self@[i - 1]);
            }
            Some(i - 1)
        }
    }
}

} // verus!
