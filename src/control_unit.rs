//! The top-level driver: one step of whichever engine is selected, and loops over steps.
use vstd::prelude::*;
use crate::cpu::{lemma_drained_is_quiescent, CpuState};
use crate::execute::{arch_of, execute, same_engine, Arch};
use crate::isa::{decode, decode_spec};
use crate::memory::{fetch_spec, Memory};
use crate::pipeline::{advance, cycle_post, PipelineController};
use crate::program_order::{in_program_order, lemma_quiet_in_program_order};

verus! {

/// One in-order step on the architectural state, and whether an instruction ran.
pub open spec fn step_in_order_spec(s: Arch) -> (Arch, bool) {
    if s.halted {
        (s, false)
    } else {
        match decode_spec(fetch_spec(s.mem, s.pc)) {
            None => (Arch { halted: true, ..s }, false),
            Some(inst) => (advance(inst, s), true),
        }
    }
}

/// The architectural state after `k` in-order steps from `s`.
pub open spec fn run_in_order(s: Arch, k: nat) -> Arch
    decreases k,
{
    if k == 0 {
        s
    } else {
        step_in_order_spec(run_in_order(s, (k - 1) as nat)).0
    }
}

/// `a + n`, saturating at u64::MAX.
pub open spec fn saturating_add(a: u64, n: int) -> int {
    if a + n > u64::MAX {
        u64::MAX as int
    } else {
        a + n
    }
}

/// Runs one step of the selected engine: an instruction in order, or a cycle
/// of the out-of-order engine. A halted processor is left as it is and the
/// result is false; otherwise the result says whether work was done.
pub fn step(cpu: &mut CpuState, mem: &mut Memory) -> (r: bool)
    requires
        old(cpu).wf(),
        old(mem).wf(),
    ensures
        final(cpu).wf(),
        final(mem).wf(),
        final(cpu).out_of_order_enabled == old(cpu).out_of_order_enabled,
        old(cpu).halted ==> !r && *final(cpu) == *old(cpu) && *final(mem) == *old(mem),
        !old(cpu).halted && !old(cpu).out_of_order_enabled ==> {
            &&& (arch_of(*final(cpu), *final(mem)), r) == step_in_order_spec(arch_of(*old(cpu), *old(mem)))
            &&& same_engine(*final(cpu), *old(cpu))
        },
        !old(cpu).halted && old(cpu).out_of_order_enabled ==> r == !final(cpu).halted && cycle_post(
            *old(cpu),
            *old(mem),
            *final(cpu),
            *final(mem),
        ),
        !r ==> final(cpu).halted,
        in_program_order(*old(cpu), old(mem)@) && (old(cpu).out_of_order_enabled
            || old(cpu).reorder_buffer.count == 0) ==> in_program_order(*final(cpu), final(mem)@),
{
    if cpu.halted {
        return false;
    }
    if cpu.out_of_order_enabled {
        PipelineController::step(cpu, mem)
    } else {
        let r = step_in_order(cpu, mem);
        proof {
            if cpu.reorder_buffer.count == 0 {
                lemma_quiet_in_program_order(*cpu, mem@);
            }
        }
        r
    }
}

/// Fetches, decodes and executes the instruction at the PC, then moves the PC
/// on by 4 unless the instruction jumped, branched or halted. A word that does
/// not decode halts the processor with the PC where it was.
pub fn step_in_order(cpu: &mut CpuState, mem: &mut Memory) -> (r: bool)
    requires
        old(cpu).wf(),
        old(mem).wf(),
    ensures
        final(cpu).wf(),
        final(mem).wf(),
        same_engine(*final(cpu), *old(cpu)),
        (arch_of(*final(cpu), *final(mem)), r) == step_in_order_spec(arch_of(*old(cpu), *old(mem))),
{
    if cpu.halted {
        return false;
    }
    let raw = mem.fetch(cpu.pc);
    match decode(raw) {
        Some(instruction) => {
            let old_pc = cpu.pc;
            execute(instruction, cpu, mem);
            if cpu.pc == old_pc && !cpu.halted {
                cpu.pc = old_pc.wrapping_add(4);
            }
            true
        },
        None => {
            cpu.halted = true;
            false
        },
    }
}

/// Steps until the processor halts, giving up only after u64::MAX steps;
/// returns the number of steps that did work.
pub fn run(cpu: &mut CpuState, mem: &mut Memory) -> (steps: u64)
    requires
        old(cpu).wf(),
        old(mem).wf(),
    ensures
        final(cpu).wf(),
        final(mem).wf(),
        final(cpu).out_of_order_enabled == old(cpu).out_of_order_enabled,
        final(cpu).halted || steps == u64::MAX,
        old(cpu).halted ==> steps == 0 && *final(cpu) == *old(cpu) && *final(mem) == *old(mem),
        // in order: `steps` steps that did work, then the one that halted, if any
        !old(cpu).out_of_order_enabled ==> {
            let s0 = arch_of(*old(cpu), *old(mem));
            let s = run_in_order(s0, steps as nat);
            &&& forall|i: nat| i < steps ==> #[trigger] step_in_order_spec(run_in_order(s0, i)).1
            &&& arch_of(*final(cpu), *final(mem)) == (if !s.halted && steps < u64::MAX {
                step_in_order_spec(s).0
            } else {
                s
            })
        },
        // out of order: a halt comes only once every instruction fetched before it
        // has committed and every station is free
        old(cpu).out_of_order_enabled && !old(cpu).halted && final(cpu).halted
            ==> final(cpu).quiescent(),
        // out of order: one cycle for each step that did work, and one for the
        // cycle that halted
        old(cpu).out_of_order_enabled && !old(cpu).halted ==> final(cpu).pipeline.cycles
            == saturating_add(
            old(cpu).pipeline.cycles,
            steps + (if final(cpu).halted {
                1int
            } else {
                0int
            }),
        ),
        in_program_order(*old(cpu), old(mem)@) && (old(cpu).out_of_order_enabled
            || old(cpu).reorder_buffer.count == 0) ==> in_program_order(*final(cpu), final(mem)@),
{
    let ghost s0 = arch_of(*cpu, *mem);
    let mut steps: u64 = 0;
    while steps < u64::MAX && !cpu.halted
        invariant_except_break
            !old(cpu).out_of_order_enabled ==> arch_of(*cpu, *mem) == run_in_order(s0, steps as nat)
                && forall|i: nat| i < steps ==> #[trigger] step_in_order_spec(run_in_order(s0, i)).1,
            old(cpu).out_of_order_enabled && !old(cpu).halted ==> cpu.pipeline.cycles
                == saturating_add(old(cpu).pipeline.cycles, steps as int) && !cpu.halted,
        invariant
            cpu.wf(),
            mem.wf(),
            cpu.out_of_order_enabled == old(cpu).out_of_order_enabled,
            s0 == arch_of(*old(cpu), *old(mem)),
            old(cpu).halted ==> steps == 0 && *cpu == *old(cpu) && *mem == *old(mem),
            in_program_order(*old(cpu), old(mem)@) && (old(cpu).out_of_order_enabled
                || old(cpu).reorder_buffer.count == 0) ==> in_program_order(*cpu, mem@)
                && (cpu.out_of_order_enabled || cpu.reorder_buffer.count == 0),
        ensures
            cpu.halted || steps == u64::MAX,
            cpu.wf(),
            mem.wf(),
            cpu.out_of_order_enabled == old(cpu).out_of_order_enabled,
            old(cpu).halted ==> steps == 0 && *cpu == *old(cpu) && *mem == *old(mem),
            in_program_order(*old(cpu), old(mem)@) && (old(cpu).out_of_order_enabled
                || old(cpu).reorder_buffer.count == 0) ==> in_program_order(*cpu, mem@),
            !old(cpu).out_of_order_enabled ==> {
                let s = run_in_order(s0, steps as nat);
                &&& forall|i: nat| i < steps ==> #[trigger] step_in_order_spec(run_in_order(s0, i)).1
                &&& arch_of(*cpu, *mem) == (if !s.halted && steps < u64::MAX {
                    step_in_order_spec(s).0
                } else {
                    s
                })
            },
            old(cpu).out_of_order_enabled && !old(cpu).halted && cpu.halted ==> cpu.quiescent(),
            old(cpu).out_of_order_enabled && !old(cpu).halted ==> cpu.pipeline.cycles
                == saturating_add(
                old(cpu).pipeline.cycles,
                steps + (if cpu.halted {
                    1int
                } else {
                    0int
                }),
            ),
        decreases u64::MAX - steps,
    {
        if !step(cpu, mem) {
            proof {
                if cpu.out_of_order_enabled {
                    lemma_drained_is_quiescent(*cpu);
                }
            }
            break;
        }
        steps = steps + 1;
    }
    steps
}

/// Runs at most `cycles` steps, stopping at the first that does no work;
/// returns how many did work.
pub fn run_cycles(cpu: &mut CpuState, mem: &mut Memory, cycles: u32) -> (r: u32)
    requires
        old(cpu).wf(),
        old(mem).wf(),
    ensures
        final(cpu).wf(),
        final(mem).wf(),
        r <= cycles,
        r < cycles ==> final(cpu).halted,
        final(cpu).out_of_order_enabled == old(cpu).out_of_order_enabled,
        old(cpu).halted ==> r == 0 && *final(cpu) == *old(cpu) && *final(mem) == *old(mem),
        // in order: `r` steps in a row did work, then (when `r < cycles`) one did not
        !old(cpu).out_of_order_enabled ==> {
            let s0 = arch_of(*old(cpu), *old(mem));
            &&& forall|i: nat| i < r ==> #[trigger] step_in_order_spec(run_in_order(s0, i)).1
            &&& r < cycles ==> !step_in_order_spec(run_in_order(s0, r as nat)).1
            &&& arch_of(*final(cpu), *final(mem)) == (if r < cycles {
                step_in_order_spec(run_in_order(s0, r as nat)).0
            } else {
                run_in_order(s0, r as nat)
            })
        },
        // out of order: `r` cycles that left the processor running, then (when
        // `r < cycles`) the one that halted it
        old(cpu).out_of_order_enabled && !old(cpu).halted ==> {
            &&& final(cpu).halted == (r < cycles)
            &&& final(cpu).pipeline.cycles == saturating_add(
                old(cpu).pipeline.cycles,
                r + (if r < cycles {
                    1int
                } else {
                    0int
                }),
            )
        },
{
    let ghost s0 = arch_of(*cpu, *mem);
    let mut executed: u32 = 0;
    let mut i: u32 = 0;
    while i < cycles
        invariant_except_break
            !old(cpu).out_of_order_enabled ==> arch_of(*cpu, *mem) == run_in_order(s0, i as nat),
            old(cpu).out_of_order_enabled && !old(cpu).halted ==> cpu.pipeline.cycles
                == saturating_add(old(cpu).pipeline.cycles, i as int) && !cpu.halted,
        invariant
            cpu.wf(),
            mem.wf(),
            executed == i,
            i <= cycles,
            s0 == arch_of(*old(cpu), *old(mem)),
            cpu.out_of_order_enabled == old(cpu).out_of_order_enabled,
            old(cpu).halted ==> executed == 0 && *cpu == *old(cpu) && *mem == *old(mem),
            !old(cpu).out_of_order_enabled ==> forall|k: nat|
                k < i ==> #[trigger] step_in_order_spec(run_in_order(s0, k)).1,
        ensures
            executed <= cycles,
            executed < cycles ==> cpu.halted,
            !old(cpu).out_of_order_enabled ==> {
                &&& executed < cycles ==> !step_in_order_spec(run_in_order(s0, executed as nat)).1
                &&& arch_of(*cpu, *mem) == (if executed < cycles {
                    step_in_order_spec(run_in_order(s0, executed as nat)).0
                } else {
                    run_in_order(s0, executed as nat)
                })
            },
            old(cpu).out_of_order_enabled && !old(cpu).halted ==> {
                &&& cpu.halted == (executed < cycles)
                &&& cpu.pipeline.cycles == saturating_add(
                    old(cpu).pipeline.cycles,
                    executed + (if executed < cycles {
                        1int
                    } else {
                        0int
                    }),
                )
            },
        decreases cycles - i,
    {
        if step(cpu, mem) {
            executed = executed + 1;
        } else {
            break;
        }
        i = i + 1;
    }
    executed
}

} // verus!
