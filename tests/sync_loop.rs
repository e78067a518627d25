use gba_irq_sync::irq::{irq_dispatch, IrqRegs};
use gba_irq_sync::sync::{arm_vblank, frame_step, wait_poll, LoopState};

#[test]
fn debounce_fires_on_press_edges_only() {
    let mut s = LoopState::new();
    let inputs = [false, true, true, true, false, true];
    let fired: Vec<usize> = inputs
        .iter()
        .enumerate()
        .filter(|(_, &held)| s.debounce_step(held).is_some())
        .map(|(i, _)| i)
        .collect();
    assert_eq!(fired, vec![1, 5]);
}

#[test]
fn palette_wraps_after_three_presses() {
    let mut s = LoopState::new();
    let mut seen = vec![s.index];
    for _ in 0..3 {
        assert!(s.debounce_step(true).is_some());
        assert!(s.debounce_step(false).is_none());
        seen.push(s.index);
    }
    assert_eq!(seen, vec![0, 1, 2, 0]);
}

#[test]
fn press_returns_new_index_for_fill() {
    let mut s = LoopState::new();
    assert_eq!(s.debounce_step(true), Some(1));
    assert_eq!(s.debounce_step(true), None);
    assert!(s.lockout);
    assert_eq!(s.debounce_step(false), None);
    assert!(!s.lockout);
}

#[test]
fn vblank_dispatch_resumes_wait() {
    let mut r = IrqRegs { master_enable: true, enabled: 0b11111, pending: 0, wait_ack: 0 };
    arm_vblank(&mut r);
    assert_eq!(r.enabled, 0b00001);
    assert!(!wait_poll(&mut r, 0b00001));
    r.pending = 0b00001;
    let mut trace = Vec::new();
    irq_dispatch(&mut r, &mut trace);
    assert!(wait_poll(&mut r, 0b00001));
    assert_eq!(r.wait_ack, 0);
}

#[test]
fn hblank_dispatch_does_not_resume_vblank_wait() {
    let mut r = IrqRegs { master_enable: true, enabled: 0, pending: 0, wait_ack: 0 };
    let mut s = LoopState::new();
    assert_eq!(frame_step(&mut s, &mut r, false), None);
    assert_eq!(r.enabled, 0b00001);
    r.enabled = 0b00011;
    r.pending = 0b00010;
    let mut trace = Vec::new();
    irq_dispatch(&mut r, &mut trace);
    assert_eq!(r.wait_ack, 0b00010);
    assert!(!wait_poll(&mut r, 0b00001));
    assert_eq!(r.wait_ack, 0b00010);
}

#[test]
fn frame_step_arms_only_vblank() {
    let mut r = IrqRegs { master_enable: true, enabled: 0b11110, pending: 0b100, wait_ack: 0b10 };
    let mut s = LoopState::new();
    assert_eq!(frame_step(&mut s, &mut r, true), Some(1));
    assert_eq!(r, IrqRegs { master_enable: true, enabled: 0b00001, pending: 0b100, wait_ack: 0b10 });
}
