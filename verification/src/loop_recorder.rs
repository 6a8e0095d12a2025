//! Recording of pad hits into named loops.
use std::time::Instant;
use vstd::prelude::*;
use vstd::string::StringExecFns;

use crate::clock::{clock_now, elapsed_millis};

verus! {

/// One pad hit inside a loop: the pad and the milliseconds since the
/// recording of the loop began.
#[derive(Clone, Copy, Debug, PartialEq, Eq)]
pub struct LoopEvent {
    pub pad_index: usize,
    pub elapsed_ms: u64,
}

/// A finished loop: its name, its hits in the order they were recorded, and
/// how long the recording ran.
pub struct Loop {
    pub name: String,
    pub events: Vec<LoopEvent>,
    pub duration_ms: u64,
}

/// What a loop holds, as mathematical values.
pub ghost struct LoopModel {
    pub name: Seq<char>,
    pub events: Seq<LoopEvent>,
    pub duration_ms: u64,
}

impl View for Loop {
    type V = LoopModel;

    open spec fn view(&self) -> LoopModel {
        LoopModel { name: self.name@, events: self.events@, duration_ms: self.duration_ms }
    }
}

/// The state of a recorder: the loops finished so far, whether a recording
/// is running, whether its clock was started, and the hits of the running
/// recording.
pub ghost struct RecorderModel {
    pub loops: Seq<LoopModel>,
    pub recording: bool,
    pub clock_started: bool,
    pub pending: Seq<LoopEvent>,
}

/// The character of the decimal digit `d`.
pub open spec fn digit_char(d: nat) -> char {
    seq!['0', '1', '2', '3', '4', '5', '6', '7', '8', '9'][d as int]
}

/// The decimal representation of `n`, without leading zeros.
pub open spec fn decimal(n: nat) -> Seq<char>
    decreases n,
{
    if n < 10 {
        seq![digit_char(n)]
    } else {
        decimal(n / 10) + seq![digit_char(n % 10)]
    }
}

/// The name of the `n`-th loop, counted from one: `loop#n`.
pub open spec fn loop_name(n: nat) -> Seq<char> {
    seq!['l', 'o', 'o', 'p', '#'] + decimal(n)
}

impl RecorderModel {
    /// A recorder that holds no loop and is not recording.
    pub open spec fn initial() -> RecorderModel {
        RecorderModel {
            loops: Seq::empty(),
            recording: false,
            clock_started: false,
            pending: Seq::empty(),
        }
    }

    /// Starting: recording begins afresh with no hits, the clock is started,
    /// the finished loops stay.
    pub open spec fn started(self) -> RecorderModel {
        RecorderModel { recording: true, clock_started: true, pending: Seq::empty(), ..self }
    }

    /// Stopping after `elapsed_ms`: a running recording becomes the next
    /// loop, named after its position; a recorder that is not recording is
    /// left as it is.
    pub open spec fn stopped(self, elapsed_ms: u64) -> RecorderModel {
        if !self.recording {
            self
        } else {
            RecorderModel {
                loops: self.loops.push(
                    LoopModel {
                        name: loop_name(self.loops.len() + 1),
                        events: self.pending,
                        duration_ms: elapsed_ms,
                    },
                ),
                recording: false,
                clock_started: false,
                pending: Seq::empty(),
            }
        }
    }

    /// A hit on `pad_index` at `elapsed_ms`: appended to a running
    /// recording, ignored otherwise.
    pub open spec fn recorded(self, pad_index: usize, elapsed_ms: u64) -> RecorderModel {
        if !self.recording {
            self
        } else {
            RecorderModel {
                pending: self.pending.push(LoopEvent { pad_index, elapsed_ms }),
                ..self
            }
        }
    }
}


/// The state after `hits` are noted one after the other, in order.
pub open spec fn recorded_all(m: RecorderModel, hits: Seq<LoopEvent>) -> RecorderModel
    decreases hits.len(),
{
    if hits.len() == 0 {
        m
    } else {
        recorded_all(m, hits.drop_last()).recorded(hits.last().pad_index, hits.last().elapsed_ms)
    }
}

/// Loop `i` (counted from zero) is named `loop#(i + 1)`, for every loop.
pub open spec fn names_follow_positions(m: RecorderModel) -> bool {
    forall|i: int| 0 <= i < m.loops.len() ==> #[trigger] m.loops[i].name == loop_name((i + 1) as nat)
}

proof fn lemma_recorded_all_running(m: RecorderModel, hits: Seq<LoopEvent>)
    requires
        m.recording,
    ensures
        recorded_all(m, hits) == (RecorderModel { pending: m.pending + hits, ..m }),
    decreases hits.len(),
{
    if hits.len() > 0 {
        lemma_recorded_all_running(m, hits.drop_last());
        let last = hits.last();
        assert(LoopEvent { pad_index: last.pad_index, elapsed_ms: last.elapsed_ms } == last);
        assert((m.pending + hits.drop_last()).push(last) =~= m.pending + hits);
    } else {
        assert(m.pending + hits =~= m.pending);
        assert(recorded_all(m, hits) == m);
    }
}

/// A loop keeps exactly what was played during its recording: after a start,
/// any run of hits and a stop after `elapsed_ms`, the recorder holds its
/// earlier loops followed by one new loop, named after its position, whose
/// hits are that run in order and whose duration is `elapsed_ms`; and it is
/// no longer recording.
pub proof fn law_stop_saves_recorded_hits(m: RecorderModel, hits: Seq<LoopEvent>, elapsed_ms: u64)
    ensures
        ({
            let after = recorded_all(m.started(), hits).stopped(elapsed_ms);
            &&& after.loops == m.loops.push(
                LoopModel {
                    name: loop_name(m.loops.len() + 1),
                    events: hits,
                    duration_ms: elapsed_ms,
                },
            )
            &&& !after.recording
            &&& after.pending == Seq::<LoopEvent>::empty()
        }),
{
    lemma_recorded_all_running(m.started(), hits);
    assert(Seq::<LoopEvent>::empty() + hits =~= hits);
}

/// Every operation keeps the finished loops as they are: the loops before
/// an operation are a prefix of the loops after it.
pub proof fn law_finished_loops_persist(m: RecorderModel, pad_index: usize, elapsed_ms: u64)
    ensures
        m.loops.is_prefix_of(m.started().loops),
        m.loops.is_prefix_of(m.stopped(elapsed_ms).loops),
        m.loops.is_prefix_of(m.recorded(pad_index, elapsed_ms).loops),
{
    assert(m.loops.is_prefix_of(m.loops));
    if m.recording {
        assert(m.loops.is_prefix_of(m.stopped(elapsed_ms).loops));
    }
}

/// Loops are named after their positions in every reachable state: a new
/// recorder has that property and every operation keeps it.
pub proof fn law_names_follow_positions(m: RecorderModel, pad_index: usize, elapsed_ms: u64)
    ensures
        names_follow_positions(RecorderModel::initial()),
        names_follow_positions(m) ==> names_follow_positions(m.started()),
        names_follow_positions(m) ==> names_follow_positions(m.stopped(elapsed_ms)),
        names_follow_positions(m) ==> names_follow_positions(m.recorded(pad_index, elapsed_ms)),
{
    if names_follow_positions(m) && m.recording {
        let after = m.stopped(elapsed_ms);
        assert forall|i: int| 0 <= i < after.loops.len() implies #[trigger] after.loops[i].name
            == loop_name((i + 1) as nat) by {
            if i < m.loops.len() {
                assert(after.loops[i] == m.loops[i]);
            }
        }
    }
}


/// One call on a recorder, with the clock readings it receives.
pub ghost enum RecorderCall {
    Start,
    Stop { elapsed_ms: u64 },
    Record { pad_index: usize, elapsed_ms: u64 },
}

/// The state after `call`.
pub open spec fn apply_call(m: RecorderModel, call: RecorderCall) -> RecorderModel {
    match call {
        RecorderCall::Start => m.started(),
        RecorderCall::Stop { elapsed_ms } => m.stopped(elapsed_ms),
        RecorderCall::Record { pad_index, elapsed_ms } => m.recorded(pad_index, elapsed_ms),
    }
}

/// The state after `calls`, made one after the other.
pub open spec fn apply_calls(m: RecorderModel, calls: Seq<RecorderCall>) -> RecorderModel
    decreases calls.len(),
{
    if calls.len() == 0 {
        m
    } else {
        apply_call(apply_calls(m, calls.drop_last()), calls.last())
    }
}

/// Whether `calls` hold a start that no later stop follows.
pub open spec fn started_since_last_stop(calls: Seq<RecorderCall>) -> bool
    decreases calls.len(),
{
    if calls.len() == 0 {
        false
    } else {
        match calls.last() {
            RecorderCall::Start => true,
            RecorderCall::Stop { .. } => false,
            RecorderCall::Record { .. } => started_since_last_stop(calls.drop_last()),
        }
    }
}

/// A running recording has its clock started.
pub open spec fn clock_runs_while_recording(m: RecorderModel) -> bool {
    m.recording ==> m.clock_started
}

/// A recorder records exactly while a start has come with no stop after it:
/// after any calls on a new recorder, it is recording if and only if some
/// start was made and no stop followed the last one; noting a hit never
/// changes that; and while it records, its clock runs.
pub proof fn law_recording_follows_start_and_stop(calls: Seq<RecorderCall>)
    ensures
        apply_calls(RecorderModel::initial(), calls).recording == started_since_last_stop(calls),
        clock_runs_while_recording(apply_calls(RecorderModel::initial(), calls)),
    decreases calls.len(),
{
    if calls.len() > 0 {
        law_recording_follows_start_and_stop(calls.drop_last());
    }
}

/// Stopping twice is stopping once: a second stop finds no recording and
/// changes nothing.
pub proof fn law_stop_twice_is_stop_once(m: RecorderModel, first_ms: u64, second_ms: u64)
    ensures
        !m.stopped(first_ms).recording,
        m.stopped(first_ms).stopped(second_ms) == m.stopped(first_ms),
{
}

/// Starting again drops the hits noted since the last start: after a start,
/// any run of hits, another start and a stop, the new loop holds no hit.
pub proof fn law_restart_drops_unsaved_hits(m: RecorderModel, hits: Seq<LoopEvent>, elapsed_ms: u64)
    ensures
        ({
            let after = recorded_all(m.started(), hits).started().stopped(elapsed_ms);
            &&& after.loops == m.loops.push(
                LoopModel {
                    name: loop_name(m.loops.len() + 1),
                    events: Seq::empty(),
                    duration_ms: elapsed_ms,
                },
            )
            &&& !after.recording
        }),
{
    lemma_recorded_all_running(m.started(), hits);
}

proof fn lemma_decimal_nonempty(n: nat)
    ensures
        decimal(n).len() >= 1,
        n >= 10 ==> decimal(n).len() >= 2,
    decreases n,
{
    if n >= 10 {
        lemma_decimal_nonempty(n / 10);
    }
}

/// Different numbers have different decimal representations.
pub proof fn lemma_decimal_injective(a: nat, b: nat)
    requires
        decimal(a) == decimal(b),
    ensures
        a == b,
    decreases a + b,
{
    lemma_decimal_nonempty(a);
    lemma_decimal_nonempty(b);
    if a < 10 && b < 10 {
        assert(decimal(a)[0] == digit_char(a));
        assert(decimal(b)[0] == digit_char(b));
    } else if a >= 10 && b >= 10 {
        let da = decimal(a / 10);
        let db = decimal(b / 10);
        assert(decimal(a).last() == digit_char(a % 10));
        assert(decimal(b).last() == digit_char(b % 10));
        assert(decimal(a).drop_last() =~= da);
        assert(decimal(b).drop_last() =~= db);
        lemma_decimal_injective(a / 10, b / 10);
    }
}

/// No two loops share a name, in every state where loops are named after
/// their positions (which every reachable state is).
pub proof fn law_loop_names_distinct(m: RecorderModel, i: int, j: int)
    requires
        names_follow_positions(m),
        0 <= i < m.loops.len(),
        0 <= j < m.loops.len(),
        i != j,
    ensures
        m.loops[i].name != m.loops[j].name,
{
    let ni = m.loops[i].name;
    let nj = m.loops[j].name;
    if ni == nj {
        assert(ni == loop_name((i + 1) as nat));
        assert(nj == loop_name((j + 1) as nat));
        assert(ni.subrange(5, ni.len() as int) =~= decimal((i + 1) as nat));
        assert(nj.subrange(5, nj.len() as int) =~= decimal((j + 1) as nat));
        lemma_decimal_injective((i + 1) as nat, (j + 1) as nat);
    }
}

/// Records pad hits, while a recording runs, into loops named `loop#1`,
/// `loop#2`, and so on.
pub struct LoopRecorder {
    pub loops: Vec<Loop>,
    is_recording: bool,
    start_time: Option<Instant>,
    current_events: Vec<LoopEvent>,
}

impl View for LoopRecorder {
    type V = RecorderModel;

    closed spec fn view(&self) -> RecorderModel {
        RecorderModel {
            loops: self.loops@.map_values(|l: Loop| l@),
            recording: self.is_recording,
            clock_started: self.start_time is Some,
            pending: self.current_events@,
        }
    }
}

/// The one-character string of the decimal digit `d`.
fn digit_str(d: usize) -> (s: &'static str)
    requires
        d < 10,
    ensures
        s@ == seq![digit_char(d as nat)],
{
    proof {
        reveal_strlit("0");
        reveal_strlit("1");
        reveal_strlit("2");
        reveal_strlit("3");
        reveal_strlit("4");
        reveal_strlit("5");
        reveal_strlit("6");
        reveal_strlit("7");
        reveal_strlit("8");
        reveal_strlit("9");
    }
    let s = if d == 0 {
        "0"
    } else if d == 1 {
        "1"
    } else if d == 2 {
        "2"
    } else if d == 3 {
        "3"
    } else if d == 4 {
        "4"
    } else if d == 5 {
        "5"
    } else if d == 6 {
        "6"
    } else if d == 7 {
        "7"
    } else if d == 8 {
        "8"
    } else {
        "9"
    };
    assert(s@ =~= seq![digit_char(d as nat)]);
    s
}

/// Appends the decimal representation of `n` to `s`.
fn push_decimal(s: &mut String, n: usize)
    ensures
        final(s)@ == old(s)@ + decimal(n as nat),
    decreases n,
{
    if n >= 10 {
        push_decimal(s, n / 10);
    }
    s.append(digit_str(n % 10));
    assert(final(s)@ =~= old(s)@ + decimal(n as nat));
}

/// The name of the `n`-th loop: `loop#` followed by `n` in decimal.
fn make_loop_name(n: usize) -> (name: String)
    ensures
        name@ == loop_name(n as nat),
{
    proof {
        reveal_strlit("loop#");
    }
    let mut name = String::from_str("loop#");
    push_decimal(&mut name, n);
    assert(name@ =~= loop_name(n as nat));
    name
}

impl LoopRecorder {
    /// A recorder with no loops that is not recording.
    pub fn new() -> (r: Self)
        ensures
            r@ == RecorderModel::initial(),
    {
        let r = LoopRecorder {
            loops: Vec::new(),
            is_recording: false,
            start_time: None,
            current_events: Vec::new(),
        };
        assert(r@.loops =~= Seq::<LoopModel>::empty());
        r
    }

    /// Begins a recording: the clock starts now and earlier unsaved hits are
    /// dropped. Finished loops stay.
    pub fn start(&mut self)
        ensures
            final(self)@ == old(self)@.started(),
    {
        self.is_recording = true;
        self.start_time = Some(clock_now());
        self.current_events = Vec::new();
        assert(final(self)@.pending =~= Seq::<LoopEvent>::empty());
    }

    /// Ends a running recording `elapsed_ms` after it began, saving its hits
    /// as the next loop; does nothing when no recording runs.
    pub fn stop_at(&mut self, elapsed_ms: u64)
        requires
            old(self)@.recording ==> old(self)@.loops.len() < usize::MAX,
        ensures
            final(self)@ == old(self)@.stopped(elapsed_ms),
    {
        if !self.is_recording {
            return;
        }
        self.is_recording = false;
        let loop_num: usize = self.loops.len() + 1;
        let name = make_loop_name(loop_num);
        let mut events: Vec<LoopEvent> = Vec::new();
        std::mem::swap(&mut events, &mut self.current_events);
        let ghost saved = events@;
        self.loops.push(Loop { name, events, duration_ms: elapsed_ms });
        self.start_time = None;
        proof {
            let expected = old(self)@.stopped(elapsed_ms);
            assert(saved == old(self)@.pending);
            assert(self@.loops =~= expected.loops);
            assert(self@.pending =~= expected.pending);
        }
    }

    /// Ends a running recording, saving its hits as the next loop together
    /// with the time the recording ran (zero when its clock was never
    /// started); does nothing when no recording runs.
    pub fn stop(&mut self)
        requires
            old(self)@.recording ==> old(self)@.loops.len() < usize::MAX,
        ensures
            !old(self)@.recording ==> final(self)@ == old(self)@,
            exists|elapsed_ms: u64|
                {
                    &&& final(self)@ == #[trigger] old(self)@.stopped(elapsed_ms)
                    &&& !old(self)@.clock_started ==> elapsed_ms == 0
                },
    {
        if !self.is_recording {
            assert(self@ == old(self)@.stopped(0));
            return;
        }
        let elapsed_ms: u64 = match &self.start_time {
            Some(t) => elapsed_millis(t),
            None => 0,
        };
        self.stop_at(elapsed_ms);
    }

    /// The finished loops, in the order they were recorded.
    pub fn loops(&self) -> (loops: &Vec<Loop>)
        ensures
            loops@.map_values(|l: Loop| l@) == self@.loops,
    {
        &self.loops
    }

    /// Whether a recording is running.
    pub fn is_recording(&self) -> (r: bool)
        ensures
            r == self@.recording,
    {
        self.is_recording
    }

    /// Notes a hit on `pad_index` at `elapsed_ms` into the running
    /// recording; does nothing when no recording runs.
    pub fn record_event_at(&mut self, pad_index: usize, elapsed_ms: u64)
        ensures
            final(self)@ == old(self)@.recorded(pad_index, elapsed_ms),
    {
        if !self.is_recording {
            return;
        }
        self.current_events.push(LoopEvent { pad_index, elapsed_ms });
    }

    /// Notes a hit on `pad_index` into the running recording, stamped with
    /// the milliseconds since the recording began (zero when its clock was
    /// never started); does nothing when no recording runs.
    pub fn record_event(&mut self, pad_index: usize)
        ensures
            !old(self)@.recording ==> final(self)@ == old(self)@,
            exists|elapsed_ms: u64|
                {
                    &&& final(self)@ == #[trigger] old(self)@.recorded(pad_index, elapsed_ms)
                    &&& !old(self)@.clock_started ==> elapsed_ms == 0
                },
    {
        if !self.is_recording {
            assert(self@ == old(self)@.recorded(pad_index, 0));
            return;
        }
        let elapsed_ms: u64 = match &self.start_time {
            Some(t) => elapsed_millis(t),
            None => 0,
        };
        self.record_event_at(pad_index, elapsed_ms);
    }
}

} // verus!
