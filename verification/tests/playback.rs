use mpc_emulator::loop_recorder::{Loop, LoopEvent, LoopRecorder};
use mpc_emulator::playback::{PlaybackCursor, PlaybackStep};

fn recorded(hits: &[(usize, u64)], duration_ms: u64) -> Vec<Loop> {
    let mut r = LoopRecorder::new();
    r.start();
    for &(pad, t) in hits {
        r.record_event_at(pad, t);
    }
    r.stop_at(duration_ms);
    r.loops
}

fn playing(step: PlaybackStep) -> (Vec<usize>, bool) {
    match step {
        PlaybackStep::Playing { pads, restart } => (pads, restart),
        PlaybackStep::Finished => panic!("playback finished"),
    }
}

#[test]
fn begin_needs_an_existing_selection() {
    let loops = recorded(&[(1, 0)], 10);
    assert_eq!(PlaybackCursor::begin(None, &loops), None);
    assert_eq!(PlaybackCursor::begin(Some(1), &loops), None);
    assert_eq!(
        PlaybackCursor::begin(Some(0), &loops),
        Some(PlaybackCursor { loop_idx: 0, next_event_idx: 0 })
    );
}

#[test]
fn steps_fire_due_hits_and_restart_after_the_last() {
    let loops = recorded(&[(0, 0), (5, 100), (9, 200)], 300);
    let mut c = PlaybackCursor::begin(Some(0), &loops).unwrap();
    assert_eq!(playing(c.tick(&loops, 50)), (vec![0], false));
    assert_eq!(c.next_event_idx, 1);
    assert_eq!(playing(c.tick(&loops, 60)), (vec![], false));
    assert_eq!(c.next_event_idx, 1);
    assert_eq!(playing(c.tick(&loops, 150)), (vec![5], false));
    assert_eq!(c.next_event_idx, 2);
    assert_eq!(playing(c.tick(&loops, 250)), (vec![9], true));
    assert_eq!(c.next_event_idx, 0);
    assert_eq!(c.loop_idx, 0);
}

#[test]
fn a_hit_exactly_at_the_moment_fires() {
    let loops = recorded(&[(2, 100), (3, 101)], 200);
    let mut c = PlaybackCursor::begin(Some(0), &loops).unwrap();
    assert_eq!(playing(c.tick(&loops, 100)), (vec![2], false));
    assert_eq!(c.next_event_idx, 1);
}

#[test]
fn two_steps_fire_what_one_later_step_fires() {
    let loops = recorded(&[(0, 10), (1, 20), (2, 30), (3, 40)], 50);
    let mut a = PlaybackCursor::begin(Some(0), &loops).unwrap();
    let (mut first, _) = playing(a.tick(&loops, 25));
    let (second, r2) = playing(a.tick(&loops, 35));
    first.extend(second);
    let mut b = PlaybackCursor::begin(Some(0), &loops).unwrap();
    let (once, r1) = playing(b.tick(&loops, 35));
    assert_eq!(first, once);
    assert_eq!(r1, r2);
    assert_eq!(a, b);
}

#[test]
fn a_late_step_fires_the_whole_pass() {
    let loops = recorded(&[(4, 0), (4, 5), (7, 9)], 10);
    let mut c = PlaybackCursor::begin(Some(0), &loops).unwrap();
    assert_eq!(playing(c.tick(&loops, 1_000)), (vec![4, 4, 7], true));
    assert_eq!(c.next_event_idx, 0);
}

#[test]
fn unplayable_loops_finish_playback() {
    let empty = recorded(&[], 100);
    let mut c = PlaybackCursor::begin(Some(0), &empty).unwrap();
    assert!(matches!(c.tick(&empty, 10), PlaybackStep::Finished));
    assert_eq!(c, PlaybackCursor { loop_idx: 0, next_event_idx: 0 });

    let instant = recorded(&[(1, 0)], 0);
    let mut c = PlaybackCursor::begin(Some(0), &instant).unwrap();
    assert!(matches!(c.tick(&instant, 10), PlaybackStep::Finished));

    let mut gone = PlaybackCursor { loop_idx: 3, next_event_idx: 1 };
    assert!(matches!(gone.tick(&instant, 10), PlaybackStep::Finished));
    assert_eq!(gone, PlaybackCursor { loop_idx: 3, next_event_idx: 1 });
}

#[test]
fn a_cursor_past_the_hits_restarts_without_firing() {
    let loops = vec![Loop {
        name: String::from("loop#1"),
        events: vec![LoopEvent { pad_index: 1, elapsed_ms: 0 }],
        duration_ms: 10,
    }];
    let mut c = PlaybackCursor { loop_idx: 0, next_event_idx: 5 };
    assert_eq!(playing(c.tick(&loops, 3)), (vec![], true));
    assert_eq!(c.next_event_idx, 0);
}
