//! The WS2812 micro-program as data, and its cycle-accounting law.
//!
//! The co-processor runs a six-instruction loop: configure the pin as an
//! output, pull a 24-bit word, then for each bit shift it into the X
//! scratch register and branch on whether it is zero, driving the pin
//! through a side-set on every instruction of the per-bit path. Both
//! branches are built to cost exactly the same number of cycles: any
//! asymmetry would corrupt the wire timing of every later bit.

use vstd::prelude::*;

verus! {

/// Operation kinds of the micro-program's instructions.
pub const KIND_SET_PINDIRS: u8 = 0;

pub const KIND_PULL_BLOCK: u8 = 1;

pub const KIND_OUT_X: u8 = 2;

pub const KIND_JMP_X_ZERO: u8 = 3;

pub const KIND_JMP_ALWAYS: u8 = 4;

pub const KIND_NOP: u8 = 5;

/// Co-processor clock cycles consumed per protocol bit, identical on both
/// branches of the micro-program.
pub const CYCLES_PER_BIT: u32 = 10;

/// Index of the instruction the hardware wraps back to: the head of the
/// per-bit loop (the out instruction).
pub const WRAP_TARGET: usize = 2;

/// One instruction of the micro-program model: its operation kind, its
/// operand (set data or out bit count), the extra delay cycles appended to
/// its execution, the pin level its side-set drives (None where the
/// instruction carries no side-set), and its jump target (0 for non-jumps).
#[derive(Copy, Clone)]
pub struct Instr {
    pub kind: u8,
    pub arg: u8,
    pub delay: u8,
    pub side: Option<u8>,
    pub target: usize,
}

/// Whether an operation kind is one of the jumps.
pub open spec fn is_jump_kind(kind: u8) -> bool {
    kind == KIND_JMP_X_ZERO || kind == KIND_JMP_ALWAYS
}

/// The descriptor of an instruction as the assembled program carries it:
/// operation kind, operand, delay and side-set. A jump's operand slot is
/// its address, which must equal the model's target.
pub open spec fn instr_tuple(i: Instr) -> (u8, u8, u8, Option<u8>) {
    if is_jump_kind(i.kind) {
        (i.kind, i.target as u8, i.delay, i.side)
    } else {
        (i.kind, i.arg, i.delay, i.side)
    }
}

/// The micro-program: pin to output, pull one word (stalling while the
/// queue is empty), then per bit: shift one bit into X with the pin held
/// low (tail of the previous bit), branch on X with the pin high, and
/// either jump back with the pin held high (bit is one) or execute a no-op
/// with the pin held low (bit is zero), wrapping back to the out
/// instruction. Each instruction costs 1 + delay cycles, so both per-bit
/// paths cost 3 + 3 + 4 = 10 cycles.
pub open spec fn ws2812_instrs() -> Seq<Instr> {
    seq![
        Instr { kind: KIND_SET_PINDIRS, arg: 1, delay: 0, side: None, target: 0 },
        Instr { kind: KIND_PULL_BLOCK, arg: 0, delay: 0, side: None, target: 0 },
        Instr { kind: KIND_OUT_X, arg: 1, delay: 2, side: Some(0u8), target: 0 },
        Instr { kind: KIND_JMP_X_ZERO, arg: 0, delay: 2, side: Some(1u8), target: 5 },
        Instr { kind: KIND_JMP_ALWAYS, arg: 0, delay: 3, side: Some(1u8), target: 2 },
        Instr { kind: KIND_NOP, arg: 0, delay: 3, side: Some(0u8), target: 0 },
    ]
}

/// What the assembled program's words must encode, jump addresses included.
pub open spec fn ws2812_tuples() -> Seq<(u8, u8, u8, Option<u8>)> {
    ws2812_instrs().map_values(|i: Instr| instr_tuple(i))
}

/// Cycles an instruction consumes: one to issue plus its delay.
pub open spec fn instr_cycles(i: Instr) -> int {
    1 + i.delay
}

/// The program counter after executing the instruction at pc, given
/// whether the X scratch register holds zero. A jump goes to its target
/// when taken; otherwise control falls through, wrapping from the end of
/// the program back to WRAP_TARGET.
pub open spec fn next_pc(prog: Seq<Instr>, pc: int, x_zero: bool) -> int {
    let i = prog[pc];
    if i.kind == KIND_JMP_ALWAYS {
        i.target as int
    } else if i.kind == KIND_JMP_X_ZERO && x_zero {
        i.target as int
    } else if pc + 1 == prog.len() {
        WRAP_TARGET as int
    } else {
        pc + 1
    }
}

/// The program counters visited in `steps` execution steps from pc.
pub open spec fn sim_trace(prog: Seq<Instr>, pc: int, x_zero: bool, steps: nat) -> Seq<int>
    decreases steps,
{
    if steps == 0 {
        Seq::empty()
    } else {
        seq![pc] + sim_trace(prog, next_pc(prog, pc, x_zero), x_zero, (steps - 1) as nat)
    }
}

/// The program counter reached after `steps` execution steps from pc.
pub open spec fn pc_after(prog: Seq<Instr>, pc: int, x_zero: bool, steps: nat) -> int
    decreases steps,
{
    if steps == 0 {
        pc
    } else {
        pc_after(prog, next_pc(prog, pc, x_zero), x_zero, (steps - 1) as nat)
    }
}

/// Total cycles of the instructions a trace visits.
pub open spec fn trace_cycles(prog: Seq<Instr>, t: Seq<int>) -> int
    decreases t.len(),
{
    if t.len() == 0 {
        0
    } else {
        instr_cycles(prog[t[0]]) + trace_cycles(prog, t.drop_first())
    }
}

/// Cycle-accounting law: starting at the wrap target, emitting one bit
/// executes exactly three instructions and returns control to the wrap
/// target, and costs exactly CYCLES_PER_BIT cycles whether the bit is
/// zero (X is zero, the nop path) or one (the jump-back path).
pub proof fn lemma_cycle_accounting(x_zero: bool)
    ensures
        sim_trace(ws2812_instrs(), WRAP_TARGET as int, x_zero, 3) == (if x_zero {
            seq![2int, 3int, 5int]
        } else {
            seq![2int, 3int, 4int]
        }),
        pc_after(ws2812_instrs(), WRAP_TARGET as int, x_zero, 3) == WRAP_TARGET as int,
        trace_cycles(ws2812_instrs(), sim_trace(ws2812_instrs(), WRAP_TARGET as int, x_zero, 3))
            == CYCLES_PER_BIT as int,
{
    reveal_with_fuel(sim_trace, 4);
    reveal_with_fuel(pc_after, 4);
    reveal_with_fuel(trace_cycles, 4);
    let p = ws2812_instrs();
    assert(next_pc(p, 2, x_zero) == 3);
    if x_zero {
        assert(next_pc(p, 3, x_zero) == 5);
        assert(next_pc(p, 5, x_zero) == 2);
        let t = sim_trace(p, 2, x_zero, 3);
        assert(t =~= seq![2int, 3int, 5int]);
        assert(trace_cycles(p, t) == instr_cycles(p[2]) + instr_cycles(p[3]) + instr_cycles(p[5])) by {
            assert(t.drop_first() =~= seq![3int, 5int]);
            assert(t.drop_first().drop_first() =~= seq![5int]);
            assert(t.drop_first().drop_first().drop_first() =~= Seq::<int>::empty());
        }
    } else {
        assert(next_pc(p, 3, x_zero) == 4);
        assert(next_pc(p, 4, x_zero) == 2);
        let t = sim_trace(p, 2, x_zero, 3);
        assert(t =~= seq![2int, 3int, 4int]);
        assert(trace_cycles(p, t) == instr_cycles(p[2]) + instr_cycles(p[3]) + instr_cycles(p[4])) by {
            assert(t.drop_first() =~= seq![3int, 4int]);
            assert(t.drop_first().drop_first() =~= seq![4int]);
            assert(t.drop_first().drop_first().drop_first() =~= Seq::<int>::empty());
        }
    }
}

/// The micro-program as an executable table, for the test-time simulator.
pub fn ws2812_program() -> (v: Vec<Instr>)
    ensures
        v@ == ws2812_instrs(),
{
    let mut v: Vec<Instr> = Vec::new();
    v.push(Instr { kind: KIND_SET_PINDIRS, arg: 1, delay: 0, side: None, target: 0 });
    v.push(Instr { kind: KIND_PULL_BLOCK, arg: 0, delay: 0, side: None, target: 0 });
    v.push(Instr { kind: KIND_OUT_X, arg: 1, delay: 2, side: Some(0u8), target: 0 });
    v.push(Instr { kind: KIND_JMP_X_ZERO, arg: 0, delay: 2, side: Some(1u8), target: 5 });
    v.push(Instr { kind: KIND_JMP_ALWAYS, arg: 0, delay: 3, side: Some(1u8), target: 2 });
    v.push(Instr { kind: KIND_NOP, arg: 0, delay: 3, side: Some(0u8), target: 0 });
    assert(v@ =~= ws2812_instrs());
    v
}

/// Simulate the per-bit loop of the micro-program once, for a bit whose
/// zero flag is `x_zero`: execute from the wrap target until control is
/// back at the wrap target, counting cycles. Always CYCLES_PER_BIT.
pub fn simulate_bit_cycles(x_zero: bool) -> (c: u32)
    ensures
        c == CYCLES_PER_BIT,
{
    let prog: Vec<Instr> = ws2812_program();
    proof {
        lemma_cycle_accounting(x_zero);
    }
    let ghost p = ws2812_instrs();
    let mut pc: usize = WRAP_TARGET;
    let mut cycles: u32 = 0;
    let mut steps: usize = 0;
    while steps == 0 || pc != WRAP_TARGET
        invariant
            prog@ == p,
            p == ws2812_instrs(),
            steps <= 3,
            pc < 6,
            pc as int == pc_after(p, WRAP_TARGET as int, x_zero, steps as nat),
            cycles as int == trace_cycles(p, sim_trace(p, WRAP_TARGET as int, x_zero, steps as nat)),
            cycles <= 4 * steps,
            steps == 3 ==> pc == WRAP_TARGET,
        decreases 3 - steps,
    {
        proof {
            reveal_with_fuel(sim_trace, 4);
            reveal_with_fuel(pc_after, 4);
            reveal_with_fuel(trace_cycles, 4);
            lemma_pc_after_snoc(p, WRAP_TARGET as int, x_zero, steps as nat);
            lemma_sim_trace_snoc(p, WRAP_TARGET as int, x_zero, steps as nat);
            lemma_trace_cycles_push(
                p,
                sim_trace(p, WRAP_TARGET as int, x_zero, steps as nat),
                pc as int,
            );
            // the concrete per-bit path, for the step bound
            assert(next_pc(p, 2, x_zero) == 3);
            assert(next_pc(p, 3, x_zero) == (if x_zero { 5int } else { 4int }));
            assert(pc_after(p, 3, x_zero, 1) == (if x_zero { 5int } else { 4int }));
            assert(pc_after(p, WRAP_TARGET as int, x_zero, 1) == 3);
            assert(pc_after(p, WRAP_TARGET as int, x_zero, 2) == (if x_zero { 5int } else { 4int }));
        }
        let i = prog[pc];
        cycles = cycles + 1 + (i.delay as u32);
        if i.kind == KIND_JMP_ALWAYS {
            pc = i.target;
        } else if i.kind == KIND_JMP_X_ZERO && x_zero {
            pc = i.target;
        } else if pc + 1 == prog.len() {
            pc = WRAP_TARGET;
        } else {
            pc = pc + 1;
        }
        steps = steps + 1;
    }
    proof {
        reveal_with_fuel(sim_trace, 4);
        reveal_with_fuel(pc_after, 4);
        reveal_with_fuel(trace_cycles, 4);
        assert(next_pc(p, 2, x_zero) == 3);
        assert(next_pc(p, 3, x_zero) == (if x_zero { 5int } else { 4int }));
        assert(pc_after(p, 3, x_zero, 1) == (if x_zero { 5int } else { 4int }));
        assert(pc_after(p, WRAP_TARGET as int, x_zero, 1) == 3);
        assert(pc_after(p, WRAP_TARGET as int, x_zero, 2) == (if x_zero { 5int } else { 4int }));
    }
    cycles
}

/// One more simulation step moves the end of the trace by one instruction.
proof fn lemma_pc_after_snoc(prog: Seq<Instr>, pc: int, x_zero: bool, steps: nat)
    ensures
        pc_after(prog, pc, x_zero, (steps + 1) as nat) == next_pc(
            prog,
            pc_after(prog, pc, x_zero, steps),
            x_zero,
        ),
    decreases steps,
{
    reveal_with_fuel(pc_after, 3);
    if steps > 0 {
        lemma_pc_after_snoc(prog, next_pc(prog, pc, x_zero), x_zero, (steps - 1) as nat);
    }
}

/// One more simulation step appends the reached pc to the trace.
proof fn lemma_sim_trace_snoc(prog: Seq<Instr>, pc: int, x_zero: bool, steps: nat)
    ensures
        sim_trace(prog, pc, x_zero, (steps + 1) as nat) == sim_trace(prog, pc, x_zero, steps).push(
            pc_after(prog, pc, x_zero, steps),
        ),
    decreases steps,
{
    reveal_with_fuel(sim_trace, 3);
    reveal_with_fuel(pc_after, 3);
    if steps == 0 {
        assert(sim_trace(prog, pc, x_zero, 1) =~= sim_trace(prog, pc, x_zero, 0).push(
            pc_after(prog, pc, x_zero, 0),
        ));
    } else {
        lemma_sim_trace_snoc(prog, next_pc(prog, pc, x_zero), x_zero, (steps - 1) as nat);
        assert(sim_trace(prog, pc, x_zero, (steps + 1) as nat) =~= sim_trace(
            prog,
            pc,
            x_zero,
            steps,
        ).push(pc_after(prog, pc, x_zero, steps)));
    }
}

/// Appending a step to a trace adds that instruction's cycles.
proof fn lemma_trace_cycles_push(prog: Seq<Instr>, t: Seq<int>, pc: int)
    ensures
        trace_cycles(prog, t.push(pc)) == trace_cycles(prog, t) + instr_cycles(prog[pc]),
    decreases t.len(),
{
    if t.len() == 0 {
        assert(t.push(pc).drop_first() =~= Seq::<int>::empty());
        assert(t =~= Seq::<int>::empty());
    } else {
        assert(t.push(pc).drop_first() =~= t.drop_first().push(pc));
        lemma_trace_cycles_push(prog, t.drop_first(), pc);
    }
}

} // verus!
