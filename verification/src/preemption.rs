//! The preemption point: where a long operation lets a pending interrupt in.

use vstd::prelude::*;
use crate::kernel::{Kernel, KernelView};
use crate::structures::exception_t;

verus! {

impl KernelView {
    /// Whether the unit of work that is counted next is the one after which
    /// the interrupt controller is polled.
    pub open spec fn polls_next(self) -> bool {
        self.ksWorkUnitsCompleted + 1 >= self.ksMaxWorkUnits
    }

    /// The kernel after one more unit of work was counted.
    pub open spec fn worked(self) -> KernelView {
        KernelView {
            ksWorkUnitsCompleted: if self.polls_next() {
                0
            } else {
                (self.ksWorkUnitsCompleted + 1) as usize
            },
            ..self
        }
    }
}

/// Counts one unit of work. Once the configured number of units is reached
/// the count starts anew and the interrupt controller is polled; the
/// operation is preempted exactly if an interrupt is pending then.
pub fn preemptionPoint(k: &mut Kernel) -> (r: exception_t)
    requires
        old(k).wf(),
    ensures
        final(k)@ == old(k)@.worked(),
        final(k).wf(),
        r == (if old(k)@.polls_next() && old(k)@.irq_pending {
            exception_t::EXCEPTION_PREEMTED
        } else {
            exception_t::EXCEPTION_NONE
        }),
{
    k.ksWorkUnitsCompleted = k.ksWorkUnitsCompleted + 1;
    if k.ksWorkUnitsCompleted >= k.ksMaxWorkUnits {
        k.ksWorkUnitsCompleted = 0;
        if k.irq_pending {
            return exception_t::EXCEPTION_PREEMTED;
        }
    }
    exception_t::EXCEPTION_NONE
}

} // verus!
