use gba_irq_sync::irq::{irq_dispatch, IrqRegs, Line, Observation, Step};

fn regs(pending: u16, enabled: u16, wait_ack: u16) -> IrqRegs {
    IrqRegs { master_enable: true, enabled, pending, wait_ack }
}

fn handled(trace: &[Observation]) -> Vec<Line> {
    trace
        .iter()
        .filter_map(|o| match o.step {
            Step::Handle(l) => Some(l),
            _ => None,
        })
        .collect()
}

#[test]
fn pending_and_enabled_line_runs_once_and_clears() {
    let mut r = regs(0b00001, 0b00001, 0);
    let mut trace = Vec::new();
    irq_dispatch(&mut r, &mut trace);
    assert_eq!(handled(&trace), vec![Line::VBlank]);
    assert_eq!(r.pending, 0);
    assert_eq!(r.wait_ack, 0b00001);
}

#[test]
fn pending_but_disabled_line_is_left_latched() {
    let mut r = regs(0b00011, 0b00001, 0);
    let mut trace = Vec::new();
    irq_dispatch(&mut r, &mut trace);
    assert_eq!(handled(&trace), vec![Line::VBlank]);
    assert_eq!(r.pending, 0b00010);
    assert_eq!(r.wait_ack, 0b00001);
}

#[test]
fn empty_dispatch_changes_nothing() {
    let before = regs(0b00100, 0b00011, 0b10000);
    let mut r = before;
    let mut trace = Vec::new();
    irq_dispatch(&mut r, &mut trace);
    assert!(handled(&trace).is_empty());
    assert_eq!(r, before);
    assert_eq!(trace.len(), 4);
}

#[test]
fn lines_run_in_priority_order() {
    let mut r = regs(0b11111, 0b11111, 0);
    let mut trace = Vec::new();
    irq_dispatch(&mut r, &mut trace);
    assert_eq!(
        handled(&trace),
        vec![Line::VBlank, Line::HBlank, Line::VCount, Line::Timer0, Line::Timer1]
    );
    assert_eq!(r.pending, 0);
    assert_eq!(r.wait_ack, 0b11111);
}

#[test]
fn lines_without_handlers_are_acknowledged_not_recorded() {
    let mut r = regs(0b1000_0001, 0b1000_0001, 0);
    let mut trace = Vec::new();
    irq_dispatch(&mut r, &mut trace);
    assert_eq!(r.pending, 0);
    assert_eq!(r.wait_ack, 0b00001);
    assert!(trace.contains(&Observation { step: Step::Acknowledge(0b1000_0001), master_enable: false }));
}

#[test]
fn record_accumulates_over_dispatches() {
    let mut r = regs(0b00010, 0b11111, 0);
    let mut trace = Vec::new();
    irq_dispatch(&mut r, &mut trace);
    r.pending = 0b01000;
    irq_dispatch(&mut r, &mut trace);
    r.pending = 0b00001;
    irq_dispatch(&mut r, &mut trace);
    assert_eq!(r.wait_ack, 0b01011);
}

#[test]
fn master_enable_off_during_dispatch() {
    let mut r = regs(0b00111, 0b00101, 0);
    let mut trace = Vec::new();
    irq_dispatch(&mut r, &mut trace);
    assert_eq!(trace[0].step, Step::MasterEnable(false));
    for o in &trace[..trace.len() - 1] {
        assert!(!o.master_enable);
    }
    let last = trace[trace.len() - 1];
    assert_eq!(last.step, Step::MasterEnable(true));
    assert!(last.master_enable);
    assert!(r.master_enable);
}
