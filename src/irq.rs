use vstd::prelude::*;
use vstd::seq_lib::lemma_multiset_commutative;

verus! {

/// Bits of the interrupt lines that have a handler of their own.
pub const LINE_MASK: u16 = 0x1f;

/// The interrupt lines that the dispatcher services, in priority order.
#[derive(Clone, Copy, Debug, PartialEq, Eq, Structural)]
pub enum Line {
    VBlank,
    HBlank,
    VCount,
    Timer0,
    Timer1,
}

/// The bit of a line in the enable, pending and wait-acknowledge registers.
pub open spec fn line_bit(l: Line) -> u16 {
    match l {
        Line::VBlank => 1,
        Line::HBlank => 2,
        Line::VCount => 4,
        Line::Timer0 => 8,
        Line::Timer1 => 16,
    }
}

pub open spec fn has_line(s: u16, l: Line) -> bool {
    s & line_bit(l) != 0
}

/// The register bit of a line.
pub fn bit_of(l: Line) -> (r: u16)
    ensures
        r == line_bit(l),
{
    match l {
        Line::VBlank => 1,
        Line::HBlank => 2,
        Line::VCount => 4,
        Line::Timer0 => 8,
        Line::Timer1 => 16,
    }
}

/// The interrupt registers that the dispatcher and the loop share.
#[derive(Clone, Copy, Debug, PartialEq, Eq, Structural)]
pub struct IrqRegs {
    /// Interrupt master enable.
    pub master_enable: bool,
    /// Interrupt enable set.
    pub enabled: u16,
    /// Interrupt pending set, latched by the hardware.
    pub pending: u16,
    /// Wait-acknowledge record: the lines serviced since the last wait consumed them.
    pub wait_ack: u16,
}

/// One step of a dispatch, as a probe sees it.
#[derive(Clone, Copy, Debug, PartialEq, Eq, Structural)]
pub enum Step {
    MasterEnable(bool),
    Handle(Line),
    Acknowledge(u16),
    WaitRecord(u16),
}

/// A step together with the master-enable value seen right after it.
#[derive(Clone, Copy, Debug, PartialEq, Eq, Structural)]
pub struct Observation {
    pub step: Step,
    pub master_enable: bool,
}

pub open spec fn to_handle(r: IrqRegs) -> u16 {
    r.pending & r.enabled
}

/// The registers after one dispatch.
pub open spec fn after_dispatch(r: IrqRegs) -> IrqRegs {
    IrqRegs {
        master_enable: true,
        enabled: r.enabled,
        pending: r.pending & !to_handle(r),
        wait_ack: r.wait_ack | (to_handle(r) & LINE_MASK),
    }
}

pub open spec fn handle_obs(l: Line) -> Observation {
    Observation { step: Step::Handle(l), master_enable: false }
}

/// The handler step of `l`, if `t` holds that line.
pub open spec fn opt_handle(t: u16, l: Line) -> Seq<Observation> {
    if has_line(t, l) {
        seq![handle_obs(l)]
    } else {
        seq![]
    }
}

/// The handler steps for the lines of `t`, in priority order.
pub open spec fn handled_steps(t: u16) -> Seq<Observation> {
    opt_handle(t, Line::VBlank) + opt_handle(t, Line::HBlank) + opt_handle(t, Line::VCount)
        + opt_handle(t, Line::Timer0) + opt_handle(t, Line::Timer1)
}

/// What a probe sees during the dispatch of `r`.
pub open spec fn dispatch_trace(r: IrqRegs) -> Seq<Observation> {
    seq![Observation { step: Step::MasterEnable(false), master_enable: false }]
        + handled_steps(to_handle(r))
        + seq![
        Observation { step: Step::Acknowledge(to_handle(r)), master_enable: false },
        Observation { step: Step::WaitRecord(after_dispatch(r).wait_ack), master_enable: false },
        Observation { step: Step::MasterEnable(true), master_enable: true },
    ]
}

fn service_line(
    t: u16,
    l: Line,
    regs: &IrqRegs,
    trace: &mut Vec<Observation>,
)
    requires
        !regs.master_enable,
    ensures
        final(trace)@ == old(trace)@ + opt_handle(t, l),
{
    if t & bit_of(l) != 0 {
        trace.push(Observation { step: Step::Handle(l), master_enable: regs.master_enable });
        assert(final(trace)@ =~= old(trace)@ + opt_handle(t, l));
    } else {
                assert(trace@ =~= old(trace)@ + opt_handle(t, l));
    }
}

/// Services every line that is both pending and enabled: masks interrupts,
/// runs the handlers in priority order, acknowledges exactly the serviced
/// lines, accumulates them into the wait-acknowledge record and unmasks.
/// Each step is appended to `trace` with the master enable seen after it.
pub fn irq_dispatch(regs: &mut IrqRegs, trace: &mut Vec<Observation>)
    ensures
        *final(regs) == after_dispatch(*old(regs)),
        final(trace)@ == old(trace)@ + dispatch_trace(*old(regs)),
{
    let ghost r0 = *regs;
    let ghost tr0 = trace@;
    regs.master_enable = false;
    trace.push(Observation { step: Step::MasterEnable(false), master_enable: regs.master_enable });
    let which: u16 = regs.pending & regs.enabled;
    let mut wait_flags: u16 = regs.wait_ack;
    let ghost tr1 = trace@;
    service_line(which, Line::VBlank, regs, trace);
    service_line(which, Line::HBlank, regs, trace);
    service_line(which, Line::VCount, regs, trace);
    service_line(which, Line::Timer0, regs, trace);
    service_line(which, Line::Timer1, regs, trace);
    assert(trace@ =~= tr1 + handled_steps(which));
    wait_flags = wait_flags | (which & LINE_MASK);
    regs.pending = regs.pending & !which;
    trace.push(Observation { step: Step::Acknowledge(which), master_enable: regs.master_enable });
    regs.wait_ack = wait_flags;
    trace.push(Observation { step: Step::WaitRecord(wait_flags), master_enable: regs.master_enable });
    regs.master_enable = true;
    trace.push(Observation { step: Step::MasterEnable(true), master_enable: regs.master_enable });
    proof {
        assert(trace@ =~= tr0 + dispatch_trace(r0));
    }
}

pub(crate) proof fn lemma_line_bits(p: u16, e: u16, w: u16, b: u16)
    by (bit_vector)
    requires
        b == 1 || b == 2 || b == 4 || b == 8 || b == 16,
    ensures
        ((p & e) & b != 0) == (p & b != 0 && e & b != 0),
        ((p & !(p & e)) & b != 0) == (p & b != 0 && e & b == 0),
        ((w | ((p & e) & 0x1f)) & b != 0) == (w & b != 0 || (p & b != 0 && e & b != 0)),
{
}

proof fn lemma_no_lines(p: u16, w: u16)
    by (bit_vector)
    ensures
        p & !0u16 == p,
        w | (0u16 & 0x1f) == w,
        0u16 & 1 == 0,
        0u16 & 2 == 0,
        0u16 & 4 == 0,
        0u16 & 8 == 0,
        0u16 & 16 == 0,
{
}

proof fn lemma_or_assoc(a: u16, b: u16, c: u16)
    by (bit_vector)
    ensures
        (a | b) | c == a | (b | c),
{
}

proof fn lemma_handle_count(t: u16, l: Line, m: Line)
    ensures
        opt_handle(t, m).to_multiset().count(handle_obs(l)) == if m == l && has_line(t, l) {
            1nat
        } else {
            0nat
        },
{
    broadcast use vstd::multiset::group_multiset_axioms, vstd::seq_lib::group_to_multiset_ensures, vstd::seq_lib::group_seq_properties;
    if has_line(t, m) {
        assert(opt_handle(t, m) =~= seq![handle_obs(m)]);
        assert(seq![handle_obs(m)] =~= Seq::<Observation>::empty().push(handle_obs(m)));
        assert(Seq::<Observation>::empty().to_multiset() =~= vstd::multiset::Multiset::empty());
    } else {
        assert(opt_handle(t, m) =~= Seq::<Observation>::empty());
    }
}

/// A line that is pending and enabled when the dispatch starts has its
/// handler run exactly once, and its pending bit is clear afterwards.
pub proof fn lemma_serviced_line_runs_once(r: IrqRegs, l: Line)
    requires
        has_line(r.pending, l),
        has_line(r.enabled, l),
    ensures
        dispatch_trace(r).to_multiset().count(handle_obs(l)) == 1,
        !has_line(after_dispatch(r).pending, l),
        has_line(after_dispatch(r).wait_ack, l),
{
    lemma_dispatch_handle_count(r, l);
    lemma_line_bits(r.pending, r.enabled, r.wait_ack, line_bit(l));
}

/// A line that is pending but not enabled when the dispatch starts has no
/// handler run, and stays pending.
pub proof fn lemma_disabled_line_untouched(r: IrqRegs, l: Line)
    requires
        has_line(r.pending, l),
        !has_line(r.enabled, l),
    ensures
        dispatch_trace(r).to_multiset().count(handle_obs(l)) == 0,
        has_line(after_dispatch(r).pending, l),
{
    lemma_dispatch_handle_count(r, l);
    lemma_line_bits(r.pending, r.enabled, r.wait_ack, line_bit(l));
}

proof fn lemma_dispatch_handle_count(r: IrqRegs, l: Line)
    ensures
        dispatch_trace(r).to_multiset().count(handle_obs(l)) == if has_line(to_handle(r), l) {
            1nat
        } else {
            0nat
        },
{
    let t = to_handle(r);
    let a = opt_handle(t, Line::VBlank);
    let b = opt_handle(t, Line::HBlank);
    let c = opt_handle(t, Line::VCount);
    let d = opt_handle(t, Line::Timer0);
    let e = opt_handle(t, Line::Timer1);
    let head = seq![Observation { step: Step::MasterEnable(false), master_enable: false }];
    let tail = seq![
        Observation { step: Step::Acknowledge(t), master_enable: false },
        Observation { step: Step::WaitRecord(after_dispatch(r).wait_ack), master_enable: false },
        Observation { step: Step::MasterEnable(true), master_enable: true },
    ];
    lemma_multiset_commutative(a, b);
    lemma_multiset_commutative(a + b, c);
    lemma_multiset_commutative(a + b + c, d);
    lemma_multiset_commutative(a + b + c + d, e);
    lemma_multiset_commutative(head, handled_steps(t));
    lemma_multiset_commutative(head + handled_steps(t), tail);
    lemma_handle_count(t, l, Line::VBlank);
    lemma_handle_count(t, l, Line::HBlank);
    lemma_handle_count(t, l, Line::VCount);
    lemma_handle_count(t, l, Line::Timer0);
    lemma_handle_count(t, l, Line::Timer1);
    broadcast use vstd::multiset::group_multiset_axioms, vstd::seq_lib::group_to_multiset_ensures, vstd::seq_lib::group_seq_properties;
    assert(!head.contains(handle_obs(l)));
    assert(!tail.contains(handle_obs(l)));
    assert(head.to_multiset().count(handle_obs(l)) == 0);
    assert(tail.to_multiset().count(handle_obs(l)) == 0);
}

/// A dispatch with no line both pending and enabled runs no handler and
/// leaves every register as it was, but for the master enable, which it
/// turns back on.
pub proof fn lemma_empty_dispatch(r: IrqRegs)
    requires
        to_handle(r) == 0,
    ensures
        handled_steps(to_handle(r)) == Seq::<Observation>::empty(),
        after_dispatch(r) == (IrqRegs { master_enable: true, ..r }),
{
    lemma_no_lines(r.pending, r.wait_ack);
    assert(handled_steps(0) =~= Seq::<Observation>::empty());
}

/// Union of the lines serviced by dispatches from each state of `rs`.
pub open spec fn serviced_union(rs: Seq<IrqRegs>) -> u16
    decreases rs.len(),
{
    if rs.len() == 0 {
        0
    } else {
        serviced_union(rs.drop_last()) | (to_handle(rs.last()) & LINE_MASK)
    }
}

/// Each state of `rs` carries the record that the dispatch from the state
/// before it left, with no wait consuming it in between.
pub open spec fn chained_dispatches(rs: Seq<IrqRegs>) -> bool {
    forall|i: int|
        0 <= i < rs.len() - 1 ==> #[trigger] rs[i + 1].wait_ack == after_dispatch(rs[i]).wait_ack
}

/// After consecutive dispatches the wait-acknowledge record is the record
/// they started from joined with every set that they serviced.
pub proof fn lemma_record_accumulates(rs: Seq<IrqRegs>)
    requires
        rs.len() > 0,
        chained_dispatches(rs),
    ensures
        after_dispatch(rs.last()).wait_ack == rs[0].wait_ack | serviced_union(rs),
    decreases rs.len(),
{
    let n = rs.len();
    if n == 1 {
        assert(rs.drop_last() =~= Seq::<IrqRegs>::empty());
        let x = to_handle(rs[0]) & LINE_MASK;
        assert(0u16 | x == x) by (bit_vector);
        assert(serviced_union(rs) == serviced_union(rs.drop_last()) | x);
        assert(rs.last() == rs[0]);
    } else {
        let prev = rs.drop_last();
        assert(chained_dispatches(prev)) by {
            assert forall|i: int| 0 <= i < prev.len() - 1 implies #[trigger] prev[i + 1].wait_ack
                == after_dispatch(prev[i]).wait_ack by {
                assert(rs[i + 1].wait_ack == after_dispatch(rs[i]).wait_ack);
            }
        }
        lemma_record_accumulates(prev);
        let k: int = n - 2;
        assert(rs[k + 1].wait_ack == after_dispatch(rs[k]).wait_ack);
        assert(prev.last() == rs[k]);
        assert(prev[0] == rs[0]);
        assert(rs.last() == rs[k + 1]);
        lemma_or_assoc(rs[0].wait_ack, serviced_union(prev), to_handle(rs.last()) & LINE_MASK);
    }
}

/// The master enable is off from the first step of a dispatch up to its
/// last, which turns it back on.
pub proof fn lemma_masked_while_dispatching(r: IrqRegs)
    ensures
        dispatch_trace(r)[0].step == Step::MasterEnable(false),
        forall|i: int|
            0 <= i < dispatch_trace(r).len() - 1 ==> !(#[trigger] dispatch_trace(r)[i]).master_enable,
        dispatch_trace(r).last() == (Observation {
            step: Step::MasterEnable(true),
            master_enable: true,
        }),
{
    let t = to_handle(r);
    let h = handled_steps(t);
    assert forall|i: int| 0 <= i < h.len() implies !(#[trigger] h[i]).master_enable by {
        let a = opt_handle(t, Line::VBlank);
        let b = opt_handle(t, Line::HBlank);
        let c = opt_handle(t, Line::VCount);
        let d = opt_handle(t, Line::Timer0);
        let e = opt_handle(t, Line::Timer1);
        assert(forall|j: int| 0 <= j < a.len() ==> !a[j].master_enable);
        assert(forall|j: int| 0 <= j < b.len() ==> !b[j].master_enable);
        assert(forall|j: int| 0 <= j < c.len() ==> !c[j].master_enable);
        assert(forall|j: int| 0 <= j < d.len() ==> !d[j].master_enable);
        assert(forall|j: int| 0 <= j < e.len() ==> !e[j].master_enable);
    }
}

} // verus!
