//! Scheduling of loop playback: which recorded hits are due at a moment of
//! the playback, and when a loop starts over.
use vstd::prelude::*;

use crate::loop_recorder::{Loop, LoopEvent, LoopModel};

verus! {

/// Where the playback of a loop stands: the loop being played and the next
/// hit of that loop to fire.
#[derive(Clone, Copy, Debug, PartialEq, Eq)]
pub struct PlaybackCursor {
    pub loop_idx: usize,
    pub next_event_idx: usize,
}

/// What one step of playback does.
#[derive(Debug)]
pub enum PlaybackStep {
    /// The loop cannot be played (it is gone, holds no hits, or lasted no
    /// time): playback ends.
    Finished,
    /// Playback goes on: `pads` are to be triggered now, in this order, and
    /// when `restart` holds every hit of this pass has fired and the pass
    /// clock moves on by the loop's duration.
    Playing { pads: Vec<usize>, restart: bool },
}

/// The index just past the run of hits, from `from` on, that are due at
/// `t`: the first index at or after `from` whose hit is later than `t`, or
/// the end of the loop.
pub open spec fn due_end(events: Seq<LoopEvent>, from: int, t: u64) -> int
    decreases events.len() - from,
{
    if from < 0 || from >= events.len() || events[from].elapsed_ms > t {
        from
    } else {
        due_end(events, from + 1, t)
    }
}

/// The pads of the run of hits, from `from` on, that are due at `t`, in
/// order.
pub open spec fn due_pads(events: Seq<LoopEvent>, from: int, t: u64) -> Seq<usize>
    decreases events.len() - from,
{
    if from < 0 || from >= events.len() || events[from].elapsed_ms > t {
        Seq::empty()
    } else {
        seq![events[from].pad_index] + due_pads(events, from + 1, t)
    }
}

/// Whether loop `idx` of `loops` can be played: it exists, holds a hit and
/// lasted some time.
pub open spec fn playable(loops: Seq<LoopModel>, idx: int) -> bool {
    &&& 0 <= idx < loops.len()
    &&& loops[idx].events.len() > 0
    &&& loops[idx].duration_ms != 0
}

/// Playback ends only for a missing loop, a loop without hits or a loop that
/// lasted no time: every existing loop with at least one hit and a nonzero
/// duration is playable, whatever the number of its hits, and no other is.
pub proof fn law_playable_loops(loops: Seq<LoopModel>, idx: int)
    ensures
        playable(loops, idx) <==> (0 <= idx < loops.len() && loops[idx].events.len() >= 1
            && loops[idx].duration_ms > 0),
{
}

/// The loops of `loops` as models.
pub open spec fn loop_models(loops: Seq<Loop>) -> Seq<LoopModel> {
    loops.map_values(|l: Loop| l@)
}


/// The pads of `events`, in order.
pub open spec fn pads_of(events: Seq<LoopEvent>) -> Seq<usize> {
    events.map_values(|e: LoopEvent| e.pad_index)
}

/// The hits due at `t` from `from` on form one unbroken run: it starts at
/// `from`, every hit in it is at or before `t`, it stops at the end of the
/// loop or at the first hit later than `t`, and the pads fired are the pads
/// of that run in order.
pub proof fn law_due_hits_form_a_run(events: Seq<LoopEvent>, from: int, t: u64)
    requires
        0 <= from <= events.len(),
    ensures
        from <= due_end(events, from, t) <= events.len(),
        forall|j: int| from <= j < due_end(events, from, t) ==> #[trigger] events[j].elapsed_ms <= t,
        due_end(events, from, t) < events.len() ==> events[due_end(events, from, t)].elapsed_ms > t,
        due_pads(events, from, t) == pads_of(events.subrange(from, due_end(events, from, t))),
    decreases events.len() - from,
{
    if from < events.len() && events[from].elapsed_ms <= t {
        law_due_hits_form_a_run(events, from + 1, t);
        let end = due_end(events, from, t);
        assert(pads_of(events.subrange(from, end)) =~= seq![events[from].pad_index] + pads_of(
            events.subrange(from + 1, end),
        ));
    } else {
        assert(pads_of(events.subrange(from, from)) =~= Seq::<usize>::empty());
    }
}

/// Two steps make one: stepping at `t1` and then, from where that step
/// stopped, at a later `t2` reaches the same hit and fires the same pads, in
/// the same order, as one step at `t2`.
pub proof fn law_steps_compose(events: Seq<LoopEvent>, from: int, t1: u64, t2: u64)
    requires
        0 <= from,
        t1 <= t2,
    ensures
        due_end(events, due_end(events, from, t1), t2) == due_end(events, from, t2),
        due_pads(events, from, t1) + due_pads(events, due_end(events, from, t1), t2) == due_pads(
            events,
            from,
            t2,
        ),
    decreases events.len() - from,
{
    if from < events.len() && events[from].elapsed_ms <= t1 {
        law_steps_compose(events, from + 1, t1, t2);
        assert(seq![events[from].pad_index] + due_pads(events, from + 1, t1) + due_pads(
            events,
            due_end(events, from, t1),
            t2,
        ) =~= seq![events[from].pad_index] + (due_pads(events, from + 1, t1) + due_pads(
            events,
            due_end(events, from + 1, t1),
            t2,
        )));
    } else {
        assert(Seq::<usize>::empty() + due_pads(events, from, t2) =~= due_pads(events, from, t2));
    }
}

/// A step from the first hit, at a moment no hit of the loop is later than,
/// fires every pad of the loop in recorded order and ends the pass.
pub proof fn law_whole_pass(events: Seq<LoopEvent>, t: u64)
    requires
        forall|j: int| 0 <= j < events.len() ==> #[trigger] events[j].elapsed_ms <= t,
    ensures
        due_end(events, 0, t) == events.len(),
        due_pads(events, 0, t) == pads_of(events),
{
    law_due_hits_form_a_run(events, 0, t);
    assert(events.subrange(0, events.len() as int) =~= events);
}

impl PlaybackCursor {
    /// Playback of the selected loop from its first hit, when a loop is
    /// selected and it exists; `None` otherwise.
    pub fn begin(selected: Option<usize>, loops: &Vec<Loop>) -> (c: Option<PlaybackCursor>)
        ensures
            c == (match selected {
                Some(idx) => if idx < loops@.len() {
                    Some(PlaybackCursor { loop_idx: idx, next_event_idx: 0 })
                } else {
                    None
                },
                None => None,
            }),
    {
        match selected {
            Some(idx) => {
                if idx < loops.len() {
                    Some(PlaybackCursor { loop_idx: idx, next_event_idx: 0 })
                } else {
                    None
                }
            },
            None => None,
        }
    }

    /// One step of playback, `elapsed_ms` after the current pass began. For
    /// a playable loop, fires every hit from the cursor on that is due by
    /// then, stopping at the first later one; when no hit is left in the pass
    /// the cursor goes back to the first hit and the step says so. For a loop
    /// that cannot be played, playback is finished and the cursor stays.
    pub fn tick(&mut self, loops: &Vec<Loop>, elapsed_ms: u64) -> (step: PlaybackStep)
        ensures
            final(self).loop_idx == old(self).loop_idx,
            ({
                let models = loop_models(loops@);
                let idx = old(self).loop_idx as int;
                let from = old(self).next_event_idx as int;
                match step {
                    PlaybackStep::Finished => {
                        &&& !(0 <= idx < models.len() && models[idx].events.len() > 0
                            && models[idx].duration_ms != 0)
                        &&& *final(self) == *old(self)
                    },
                    PlaybackStep::Playing { pads, restart } => {
                        let events = models[idx].events;
                        let end = due_end(events, from, elapsed_ms);
                        &&& 0 <= idx < models.len()
                        &&& models[idx].events.len() > 0
                        &&& models[idx].duration_ms != 0
                        &&& pads@ == due_pads(events, from, elapsed_ms)
                        &&& restart == (end >= events.len())
                        &&& final(self).next_event_idx == (if restart {
                            0
                        } else {
                            end
                        })
                    },
                }
            }),
    {
        if self.loop_idx >= loops.len() {
            return PlaybackStep::Finished;
        }
        let lp = &loops[self.loop_idx];
        assert(loop_models(loops@)[self.loop_idx as int] == lp@);
        if lp.events.len() == 0 || lp.duration_ms == 0 {
            return PlaybackStep::Finished;
        }
        let ghost events = lp.events@;
        let ghost from = self.next_event_idx as int;
        let n: usize = lp.events.len();
        let mut pads: Vec<usize> = Vec::new();
        while self.next_event_idx < n && lp.events[self.next_event_idx].elapsed_ms <= elapsed_ms
            invariant
                n == events.len(),
                events == lp.events@,
                from <= self.next_event_idx,
                self.loop_idx == old(self).loop_idx,
                due_end(events, from, elapsed_ms) == due_end(
                    events,
                    self.next_event_idx as int,
                    elapsed_ms,
                ),
                due_pads(events, from, elapsed_ms) == pads@ + due_pads(
                    events,
                    self.next_event_idx as int,
                    elapsed_ms,
                ),
            decreases n - self.next_event_idx,
        {
            let i: usize = self.next_event_idx;
            pads.push(lp.events[i].pad_index);
            self.next_event_idx = i + 1;
            assert(due_pads(events, i as int, elapsed_ms) == seq![events[i as int].pad_index]
                + due_pads(events, i + 1, elapsed_ms));
            assert(pads@ + due_pads(events, i + 1, elapsed_ms) =~= pads@.drop_last() + (seq![
                events[i as int].pad_index,
            ] + due_pads(events, i + 1, elapsed_ms)));
        }
        assert(due_pads(events, self.next_event_idx as int, elapsed_ms) =~= Seq::<usize>::empty());
        assert(pads@ + Seq::<usize>::empty() =~= pads@);
        let restart = self.next_event_idx >= n;
        if restart {
            self.next_event_idx = 0;
        }
        PlaybackStep::Playing { pads, restart }
    }
}

} // verus!
