//! The dual-rate scheduler: intervals, firing, and drift-free remainders.

use chip8_core::scheduler::{Scheduler, FRAME_RATE, INSTRUCTIONS_PER_SECOND};

#[test]
fn nothing_is_due_before_time_passes() {
    let mut s = Scheduler::new(100, 50);
    let (step, frame) = s.advance(0);
    assert!(!step);
    assert!(!frame);
}

#[test]
fn a_cadence_fires_once_its_interval_has_passed() {
    let mut s = Scheduler::new(100, 50);
    // 100 per second: one step every 10_000_000 ns. 50 per second: one
    // frame every 20_000_000 ns.
    let (step, frame) = s.advance(9_999_999);
    assert!(!step);
    assert!(!frame);
    let (step, frame) = s.advance(1);
    assert!(step);
    assert!(!frame);
    let (step, frame) = s.advance(10_000_000);
    assert!(step);
    assert!(frame);
}

#[test]
fn the_remainder_is_kept_not_reset() {
    let mut s = Scheduler::new(100, 1);
    // One step interval plus 4 ns: the 4 ns must survive the firing.
    let (step, _) = s.advance(10_000_004);
    assert!(step);
    let (step, _) = s.advance(9_999_996);
    assert!(step);
    let (step, _) = s.advance(9_999_995);
    assert!(!step);
}

#[test]
fn the_two_cadences_are_independent() {
    let mut s = Scheduler::new(INSTRUCTIONS_PER_SECOND, FRAME_RATE);
    // 700 steps and 60 frames per second: after 1/700 s a step is due but
    // no frame yet.
    let (step, frame) = s.advance(1_000_000_000 / 700);
    assert!(step);
    assert!(!frame);
}
