//! Scopes of a test: what a test changes of its processor inside a scope is
//! undone at the end of the scope.

use vstd::prelude::*;

verus! {

/// The bit of DAIF that masks IRQs.
pub const DAIF_IRQ_MASK: u64 = 0x80;

/// The installed IRQ handler, as the two words of a reference to a trait
/// object, both of which are zero when none is installed.
#[derive(Clone, Copy, Debug, PartialEq, Eq, Structural)]
pub struct IrqHandler {
    pub data: usize,
    pub vtable: usize,
}

impl IrqHandler {
    /// Whether a handler is installed: a reference is never zero.
    pub fn is_installed(&self) -> (installed: bool)
        ensures
            installed == (self.data != 0),
    {
        self.data != 0
    }
}

/// The part of a processor's state that scopes look after.
#[derive(Clone, Copy, Debug, PartialEq, Eq, Structural)]
pub struct CpuState {
    /// Whether IRQs are delivered.
    pub interrupts_enabled: bool,
    pub irq_handler: IrqHandler,
    /// Whether the exception vectors are in place.
    pub arch_initialized: bool,
}

/// One thing to do to the processor.
#[derive(Clone, Copy, Debug, PartialEq, Eq, Structural)]
pub enum ArchStep {
    MaskIrqs,
    UnmaskIrqs,
    SetIrqHandler(IrqHandler),
    InstallVectors,
}

impl CpuState {
    /// The state after one step.
    pub open spec fn after(self, step: ArchStep) -> CpuState {
        match step {
            ArchStep::MaskIrqs => CpuState { interrupts_enabled: false, ..self },
            ArchStep::UnmaskIrqs => CpuState { interrupts_enabled: true, ..self },
            ArchStep::SetIrqHandler(irq_handler) => CpuState { irq_handler, ..self },
            ArchStep::InstallVectors => CpuState { arch_initialized: true, ..self },
        }
    }

    /// The state after all steps.
    pub open spec fn after_all(self, steps: Seq<ArchStep>) -> CpuState
        decreases steps.len(),
    {
        if steps.len() == 0 {
            self
        } else {
            self.after_all(steps.drop_last()).after(steps.last())
        }
    }
}

/// Steps one after the other.
pub proof fn lemma_after_all_push(cpu: CpuState, steps: Seq<ArchStep>, step: ArchStep)
    ensures
        cpu.after_all(steps.push(step)) == cpu.after_all(steps).after(step),
{
    assert(steps.push(step).drop_last() =~= steps);
}

/// Whether the handler changes only while IRQs are masked, and the vectors too.
pub open spec fn is_guarded(cpu: CpuState, steps: Seq<ArchStep>) -> bool {
    forall|i: int|
        0 <= i < steps.len() && (#[trigger] steps[i] is SetIrqHandler || steps[i] is InstallVectors)
            ==> !cpu.after_all(steps.take(i)).interrupts_enabled
}

/// Whether IRQs are delivered, by the value of DAIF.
pub fn are_interrupts_enabled(daif: u64) -> (enabled: bool)
    ensures
        enabled == (daif / DAIF_IRQ_MASK % 2 == 0),
        enabled <==> (daif >> 7) & 1 == 0,
{
    proof {
        assert(daif / 0x80 % 2 == (daif >> 7) & 1) by (bit_vector);
    }
    daif / DAIF_IRQ_MASK % 2 == 0
}

/// What a scope remembers of the state at its start.
#[derive(Clone, Copy, Debug, PartialEq, Eq, Structural)]
pub struct ArchScopeState {
    old_irq_handler: Option<IrqHandler>,
    interrupts_enabled: bool,
}

/// A scope of a test.
#[derive(Debug)]
pub struct Scope {
    arch: ArchScopeState,
}

/// Adds the steps that mask IRQs. Returns whether they were delivered.
fn push_disable(cpu: &CpuState, steps: &mut Vec<ArchStep>) -> (enabled: bool)
    ensures
        enabled == cpu.interrupts_enabled,
        final(steps)@ == (if enabled {
            old(steps)@.push(ArchStep::MaskIrqs)
        } else {
            old(steps)@
        }),
{
    if cpu.interrupts_enabled {
        steps.push(ArchStep::MaskIrqs);
    }
    cpu.interrupts_enabled
}

impl Scope {
    /// Whether the scope can restore the state that it started with: it
    /// remembers the handler, or that is still installed.
    pub closed spec fn remembers(&self, start: CpuState, now: CpuState) -> bool {
        &&& self.arch.interrupts_enabled == start.interrupts_enabled
        &&& match self.arch.old_irq_handler {
            Some(handler) => handler == start.irq_handler,
            None => now.irq_handler == start.irq_handler,
        }
    }

    /// Initializes the architecture-specific state for a new scope.
    ///
    /// Installs the EL1 exception vector table on first use and records the
    /// current IRQ delivery state so that [`Self::arch_reset`] can restore it.
    pub fn arch_init(cpu: &CpuState) -> (r: (Scope, Vec<ArchStep>))
        ensures
            ({
                let (scope, steps) = r;
                let after = cpu.after_all(steps@);
                &&& scope.remembers(*cpu, after)
                &&& after == (if cpu.arch_initialized {
                    *cpu
                } else {
                    CpuState { interrupts_enabled: false, arch_initialized: true, ..*cpu }
                })
                &&& cpu.arch_initialized ==> steps@ == Seq::<ArchStep>::empty()
                &&& is_guarded(*cpu, steps@)
            }),
    {
        let mut steps: Vec<ArchStep> = Vec::new();
        let scope = Scope {
            arch: ArchScopeState {
                old_irq_handler: None,
                interrupts_enabled: cpu.interrupts_enabled,
            },
        };
        if !cpu.arch_initialized {
            let ghost none = steps@;
            push_disable(cpu, &mut steps);
            let ghost masked = steps@;
            steps.push(ArchStep::InstallVectors);
            proof {
                reveal_with_fuel(CpuState::after_all, 3);
                lemma_after_all_push(*cpu, none, ArchStep::MaskIrqs);
                lemma_after_all_push(*cpu, masked, ArchStep::InstallVectors);
                assert(steps@.take(masked.len() as int) =~= masked);
                assert forall|i: int|
                    0 <= i < steps@.len() && (#[trigger] steps@[i] is SetIrqHandler || steps@[i]
                        is InstallVectors) implies !cpu.after_all(
                    steps@.take(i),
                ).interrupts_enabled by {
                    assert(i == masked.len());
                }
            }
        }
        (scope, steps)
    }

    /// Restores the IRQ handler and IRQ delivery state saved by this scope.
    pub fn arch_reset(&mut self, cpu: &CpuState) -> (steps: Vec<ArchStep>)
        ensures
            forall|start: CpuState| #[trigger]
                old(self).remembers(start, *cpu) ==> cpu.after_all(steps@) == (CpuState {
                    interrupts_enabled: start.interrupts_enabled,
                    irq_handler: start.irq_handler,
                    ..*cpu
                }) && final(self).remembers(start, cpu.after_all(steps@)),
            is_guarded(*cpu, steps@),
    {
        let mut steps: Vec<ArchStep> = Vec::new();
        if let Some(handler) = self.arch.old_irq_handler {
            self.arch.old_irq_handler = None;
            push_guarded_set(cpu, handler, &mut steps);
        }
        let ghost restored = steps@;
        if self.arch.interrupts_enabled {
            steps.push(ArchStep::UnmaskIrqs);
            proof {
                lemma_after_all_push(*cpu, restored, ArchStep::UnmaskIrqs);
            }
        } else {
            push_disable(cpu, &mut steps);
            proof {
                lemma_after_all_push(*cpu, restored, ArchStep::MaskIrqs);
            }
        }
        proof {
            assert forall|i: int|
                0 <= i < steps@.len() && (#[trigger] steps@[i] is SetIrqHandler || steps@[i]
                    is InstallVectors) implies !cpu.after_all(
                steps@.take(i),
            ).interrupts_enabled by {
                assert(i < restored.len());
                assert(restored[i] is SetIrqHandler || restored[i] is InstallVectors);
                assert(steps@.take(i) =~= restored.take(i));
            }
        }
        steps
    }

    /// Saves the currently installed IRQ handler once for later restoration.
    fn save_irq_handler(&mut self, cpu: &CpuState) -> (steps: Vec<ArchStep>)
        ensures
            cpu.after_all(steps@) == *cpu,
            is_guarded(*cpu, steps@),
            final(self).arch.old_irq_handler is Some,
            forall|start: CpuState| #[trigger]
                old(self).remembers(start, *cpu) ==> final(self).remembers(start, *cpu),
    {
        let mut steps: Vec<ArchStep> = Vec::new();
        if self.arch.old_irq_handler.is_some() {
            return steps;
        }
        let enabled = push_disable(cpu, &mut steps);
        self.arch.old_irq_handler = Some(cpu.irq_handler);
        if enabled {
            let ghost masked = steps@;
            steps.push(ArchStep::UnmaskIrqs);
            proof {
                reveal_with_fuel(CpuState::after_all, 3);
                lemma_after_all_push(*cpu, masked, ArchStep::UnmaskIrqs);
            }
        }
        steps
    }

    /// Sets the IRQ handler.
    ///
    /// This is reverted when the scope ends.
    pub fn set_irq_handler(&mut self, cpu: &CpuState, handler: IrqHandler) -> (steps: Vec<ArchStep>)
        ensures
            cpu.after_all(steps@) == (CpuState { irq_handler: handler, ..*cpu }),
            is_guarded(*cpu, steps@),
            forall|start: CpuState| #[trigger]
                old(self).remembers(start, *cpu) ==> final(self).remembers(
                    start,
                    cpu.after_all(steps@),
                ),
    {
        let mut steps: Vec<ArchStep> = self.save_irq_handler(cpu);
        push_guarded_set(cpu, handler, &mut steps);
        steps
    }

    /// Enables IRQ delivery.
    ///
    /// This is reverted when the scope ends.
    pub fn enable_interrupts(&self) -> (steps: Vec<ArchStep>)
        ensures
            steps@ == seq![ArchStep::UnmaskIrqs],
            forall|cpu: CpuState| #[trigger]
                cpu.after_all(steps@) == (CpuState { interrupts_enabled: true, ..cpu }),
            forall|start: CpuState, now: CpuState| #[trigger]
                self.remembers(start, now) ==> self.remembers(start, now.after_all(steps@)),
    {
        let steps: Vec<ArchStep> = vec![ArchStep::UnmaskIrqs];
        proof {
            assert forall|cpu: CpuState| #[trigger]
                cpu.after_all(steps@) == (CpuState { interrupts_enabled: true, ..cpu }) by {
                reveal_with_fuel(CpuState::after_all, 2);
                assert(steps@.drop_last() =~= Seq::empty());
            }
        }
        steps
    }

    /// Disables IRQ delivery and returns true if it was previously enabled.
    ///
    /// This is reverted when the scope ends.
    pub fn disable_interrupts(&self, cpu: &CpuState) -> (r: (bool, Vec<ArchStep>))
        ensures
            r.0 == cpu.interrupts_enabled,
            r.1@ == (if r.0 {
                seq![ArchStep::MaskIrqs]
            } else {
                Seq::empty()
            }),
            cpu.after_all(r.1@) == (CpuState { interrupts_enabled: false, ..*cpu }),
            forall|start: CpuState| #[trigger]
                self.remembers(start, *cpu) ==> self.remembers(start, cpu.after_all(r.1@)),
    {
        let mut steps: Vec<ArchStep> = Vec::new();
        let enabled = push_disable(cpu, &mut steps);
        proof {
            reveal_with_fuel(CpuState::after_all, 2);
            lemma_after_all_push(*cpu, Seq::empty(), ArchStep::MaskIrqs);
            assert(Seq::empty().push(ArchStep::MaskIrqs) =~= seq![ArchStep::MaskIrqs]);
        }
        (enabled, steps)
    }
}

/// Adds the steps that change the handler while IRQs are masked, and deliver
/// them again if they were delivered before.
fn push_guarded_set(cpu: &CpuState, handler: IrqHandler, steps: &mut Vec<ArchStep>)
    requires
        cpu.after_all(old(steps)@) == *cpu,
        is_guarded(*cpu, old(steps)@),
    ensures
        cpu.after_all(final(steps)@) == (CpuState { irq_handler: handler, ..*cpu }),
        is_guarded(*cpu, final(steps)@),
{
    let ghost before = steps@;
    let enabled = push_disable(cpu, steps);
    let ghost masked = steps@;
    steps.push(ArchStep::SetIrqHandler(handler));
    let ghost set = steps@;
    proof {
        lemma_after_all_push(*cpu, before, ArchStep::MaskIrqs);
        lemma_after_all_push(*cpu, masked, ArchStep::SetIrqHandler(handler));
        lemma_after_all_push(*cpu, set, ArchStep::UnmaskIrqs);
    }
    if enabled {
        steps.push(ArchStep::UnmaskIrqs);
    }
    proof {
        assert forall|i: int|
            0 <= i < steps@.len() && (#[trigger] steps@[i] is SetIrqHandler || steps@[i]
                is InstallVectors) implies !cpu.after_all(steps@.take(i)).interrupts_enabled by {
            if i < before.len() {
                assert(before[i] is SetIrqHandler || before[i] is InstallVectors);
                assert(steps@.take(i) =~= before.take(i));
            } else {
                assert(i == masked.len());
                assert(steps@.take(i) =~= masked);
            }
        }
    }
}

} // verus!
