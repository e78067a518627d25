use vstd::prelude::*;
use crate::irq::{after_dispatch, bit_of, has_line, lemma_line_bits, line_bit, to_handle, IrqRegs, Line};

verus! {

/// Number of colours the loop cycles through.
pub const PALETTE_LEN: usize = 3;

/// What the loop keeps from one frame to the next.
#[derive(Clone, Copy, Debug, PartialEq, Eq, Structural)]
pub struct LoopState {
    /// Index of the active colour.
    pub index: usize,
    /// Set while the current press has already been handled.
    pub lockout: bool,
}

impl LoopState {
    pub open spec fn wf(self) -> bool {
        self.index < PALETTE_LEN
    }

    /// The loop at start-up: first colour, no press being handled.
    pub fn new() -> (r: LoopState)
        ensures
            r.wf(),
            r.index == 0,
            !r.lockout,
    {
        LoopState { index: 0, lockout: false }
    }

    /// One debounce transition for a sample of the button. On a press edge
    /// the colour index advances modulo the palette length and the new index
    /// is returned for the screen fill; a held button repeats nothing, and a
    /// released one clears the lockout.
    pub fn debounce_step(&mut self, held: bool) -> (fill: Option<usize>)
        requires
            old(self).wf(),
        ensures
            final(self).wf(),
            held && !old(self).lockout ==> fill == Some(((old(self).index + 1) % (PALETTE_LEN as int)) as usize)
                && *final(self) == (LoopState { index: fill->0, lockout: true }),
            held && old(self).lockout ==> fill is None && *final(self) == *old(self),
            !held ==> fill is None && *final(self) == (LoopState {
                index: old(self).index,
                lockout: false,
            }),
    {
        if held {
            if !self.lockout {
                self.index = (self.index + 1) % PALETTE_LEN;
                self.lockout = true;
                return Some(self.index);
            }
            None
        } else {
            self.lockout = false;
            None
        }
    }
}

/// Arms exactly the vertical-blank line, replacing any earlier arming.
pub fn arm_vblank(regs: &mut IrqRegs)
    ensures
        *final(regs) == (IrqRegs { enabled: line_bit(Line::VBlank), ..*old(regs) }),
{
    regs.enabled = bit_of(Line::VBlank);
}

/// One check of a blocking wait on the lines of `want`: when the
/// wait-acknowledge record holds one of them, those bits are consumed and
/// the wait resumes; otherwise nothing changes and the wait goes on.
pub fn wait_poll(regs: &mut IrqRegs, want: u16) -> (resumed: bool)
    ensures
        resumed == (old(regs).wait_ack & want != 0),
        resumed ==> *final(regs) == (IrqRegs { wait_ack: old(regs).wait_ack & !want, ..*old(regs) }),
        !resumed ==> *final(regs) == *old(regs),
{
    if regs.wait_ack & want != 0 {
        regs.wait_ack = regs.wait_ack & !want;
        true
    } else {
        false
    }
}

/// The decisions of one frame of the loop: the debounce transition for the
/// sampled button, then the arming of the vertical-blank line ahead of the
/// wait. Returns the colour index to fill the screen with, if any.
pub fn frame_step(state: &mut LoopState, regs: &mut IrqRegs, held: bool) -> (fill: Option<usize>)
    requires
        old(state).wf(),
    ensures
        final(state).wf(),
        held && !old(state).lockout ==> fill == Some(
            ((old(state).index + 1) % (PALETTE_LEN as int)) as usize,
        ) && *final(state) == (LoopState { index: fill->0, lockout: true }),
        held && old(state).lockout ==> fill is None && *final(state) == *old(state),
        !held ==> fill is None && *final(state) == (LoopState {
            index: old(state).index,
            lockout: false,
        }),
        *final(regs) == (IrqRegs { enabled: line_bit(Line::VBlank), ..*old(regs) }),
{
    let fill = state.debounce_step(held);
    arm_vblank(regs);
    fill
}

/// A wait on the vertical-blank line, begun with that line armed and not yet
/// recorded, resumes after a dispatch exactly when that dispatch serviced the
/// vertical-blank line; one that serviced other lines alone leaves it waiting.
pub proof fn lemma_vblank_wait_resumes(r: IrqRegs)
    requires
        r.enabled == line_bit(Line::VBlank),
        !has_line(r.wait_ack, Line::VBlank),
    ensures
        (after_dispatch(r).wait_ack & line_bit(Line::VBlank) != 0) == has_line(
            to_handle(r),
            Line::VBlank,
        ),
{
    lemma_line_bits(r.pending, r.enabled, r.wait_ack, line_bit(Line::VBlank));
}

} // verus!
