//! Properties of the machine that hold across several instructions or steps.
use vstd::prelude::*;
use crate::display::covers;
use crate::instruction::{decode_spec, encode, operands_in_range, Instruction};
use crate::machine::{execute, step, MachineState, MEMORY_SIZE, NUM_REGISTERS, STACK_DEPTH};

verus! {

/// The state after stepping `s` once for each byte of `randoms`, in order,
/// each step drawing its byte as the random one.
pub open spec fn run(s: MachineState, randoms: Seq<u8>) -> MachineState
    decreases randoms.len(),
{
    if randoms.len() == 0 {
        s
    } else {
        step(run(s, randoms.drop_last()), randoms.last())
    }
}

/// Whether the instruction at PC sets the delay timer.
pub open spec fn sets_delay_timer(s: MachineState) -> bool {
    match s.fetch() {
        Some(op) => decode_spec(op) is SetDelay,
        None => false,
    }
}

/// Decoding is a total function of the opcode: every opcode decodes to an
/// instruction with in-range operands (the unknown one included), and that
/// instruction encodes back to the same opcode.
pub proof fn law_decode_total(op: u16)
    ensures
        operands_in_range(decode_spec(op)),
        encode(decode_spec(op)) == op as int,
{
    crate::instruction::lemma_decode_in_range(op);
    crate::instruction::lemma_decode_lossless(op);
}

/// Dumping V0..=Vx to memory at I, zeroing the registers, then loading
/// V0..=Vx from the same address restores those registers exactly.
pub proof fn law_dump_load_round_trip(s: MachineState, x: u8, r1: u8, r2: u8)
    requires
        s.wf(),
        x < NUM_REGISTERS,
        s.index + x + 1 <= MEMORY_SIZE,
    ensures
        ({
            let dumped = execute(s, Instruction::DumpRegisters(x), r1);
            let zeroed = MachineState { v: Seq::new(NUM_REGISTERS as nat, |k: int| 0u8), ..dumped };
            let restored = execute(zeroed, Instruction::LoadRegisters(x), r2);
            forall|k: int| 0 <= k <= x ==> #[trigger] restored.v[k] == s.v[k]
        }),
{
}

/// A call followed by a return comes back to the instruction after the call,
/// with the stack pointer where it was.
pub proof fn law_call_return(s: MachineState, addr: u16, r1: u8, r2: u8)
    requires
        s.wf(),
        s.pc + 1 < MEMORY_SIZE,
        s.sp < STACK_DEPTH,
    ensures
        execute(s, Instruction::Call(addr), r1).pc == addr,
        execute(execute(s, Instruction::Call(addr), r1), Instruction::Return, r2).pc == s.pc + 2,
        execute(execute(s, Instruction::Call(addr), r1), Instruction::Return, r2).sp == s.sp,
{
}

/// Executing anything but the set-delay instruction leaves the delay timer.
proof fn lemma_execute_keeps_delay(s: MachineState, ins: Instruction, random: u8)
    requires
        !(ins is SetDelay),
    ensures
        execute(s, ins, random).delay_timer == s.delay_timer,
{
}

/// Over steps that set no delay timer, the delay timer falls by one per step
/// and stops at zero.
pub proof fn law_delay_timer_decay(s: MachineState, randoms: Seq<u8>)
    requires
        forall|k: int| 0 <= k < randoms.len() ==> !sets_delay_timer(#[trigger] run(s, randoms.take(k))),
    ensures
        run(s, randoms).delay_timer == if s.delay_timer >= randoms.len() {
            s.delay_timer - randoms.len()
        } else {
            0
        },
    decreases randoms.len(),
{
    if randoms.len() > 0 {
        let prefix = randoms.drop_last();
        assert forall|k: int| 0 <= k < prefix.len() implies !sets_delay_timer(
            #[trigger] run(s, prefix.take(k)),
        ) by {
            assert(prefix.take(k) =~= randoms.take(k));
            assert(!sets_delay_timer(run(s, randoms.take(k))));
        };
        law_delay_timer_decay(s, prefix);
        let last = run(s, prefix);
        assert(randoms.take(prefix.len() as int) =~= prefix);
        assert(!sets_delay_timer(run(s, randoms.take(prefix.len() as int))));
        if let Some(op) = last.fetch() {
            lemma_execute_keeps_delay(last.tick(), decode_spec(op), randoms.last());
        }
    }
}

/// On a clear screen, drawing a sprite reports no collision and lights
/// exactly the pixels the sprite covers; drawing it again at the same place
/// clears the screen once more and reports a collision exactly when the sprite
/// lit some pixel. The coordinates are read from registers other than VF,
/// which the first draw overwrites.
pub proof fn law_draw_twice(s: MachineState, x: u8, y: u8, n: u8, r1: u8, r2: u8)
    requires
        s.wf(),
        x < 15,
        y < 15,
        n < 16,
        s.index + n <= MEMORY_SIZE,
        forall|p: int| 0 <= p < s.gfx.len() ==> #[trigger] s.gfx[p] == 0,
    ensures
        ({
            let once = execute(s, Instruction::Draw(x, y, n), r1);
            let twice = execute(once, Instruction::Draw(x, y, n), r2);
            let rows = s.memory.subrange(s.index as int, s.index + n);
            let lit = exists|p: int| 0 <= p < s.gfx.len() && covers(rows, s.reg(x), s.reg(y), p);
            &&& once.v[15] == 0
            &&& forall|p: int| 0 <= p < s.gfx.len() ==> #[trigger] once.gfx[p] == if covers(rows, s.reg(x), s.reg(y), p) { 1u8 } else { 0u8 }
            &&& twice.gfx == s.gfx
            &&& twice.v[15] == if lit { 1u8 } else { 0u8 }
        }),
{
    let once = execute(s, Instruction::Draw(x, y, n), r1);
    let twice = execute(once, Instruction::Draw(x, y, n), r2);
    let rows = s.memory.subrange(s.index as int, s.index + n);
    assert(once.reg(x) == s.reg(x) && once.reg(y) == s.reg(y));
    assert(once.memory.subrange(once.index as int, once.index + n) == rows);
    assert forall|p: int| 0 <= p < s.gfx.len() implies #[trigger] once.gfx[p] == if covers(rows, s.reg(x), s.reg(y), p) { 1u8 } else { 0u8 } by {
        assert(0u8 ^ 1u8 == 1u8) by (bit_vector);
    };
    assert forall|p: int| 0 <= p < s.gfx.len() implies #[trigger] twice.gfx[p] == s.gfx[p] by {
        assert(1u8 ^ 1u8 == 0u8) by (bit_vector);
    };
    assert(twice.gfx =~= s.gfx);
    let lit = exists|p: int| 0 <= p < s.gfx.len() && covers(rows, s.reg(x), s.reg(y), p);
    if lit {
        let p = choose|p: int| 0 <= p < s.gfx.len() && covers(rows, s.reg(x), s.reg(y), p);
        assert(once.gfx[p] == 1);
    }
}

} // verus!
