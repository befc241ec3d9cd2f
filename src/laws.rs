use vstd::prelude::*;
use crate::machine::{ExecError, MachineModel, RAM_SIZE};
use crate::decode::Instruction;
use crate::execute::{draw_collides, drawn_pixels, exec_spec, sprite_covers, step_drawn};
use crate::machine::word_at;
use crate::decode::decode_spec;
use crate::clock::ticked_times;

verus! {

/// `8xy4` stores `(a + b) mod 256` in `Vx` and sets the flag to 1 exactly
/// when `a + b > 255`; the flag write wins when `x` is the flag register.
pub proof fn lemma_add_carry(m: MachineModel, x: u8, y: u8, random: u8)
    requires
        m.wf(),
        x < 16,
        y < 16,
    ensures
        ({
            let (a, b) = (m.v[x as int], m.v[y as int]);
            let r = exec_spec(m, Instruction::AddReg { x, y }, random);
            &&& r is Ok
            &&& r->Ok_0.v[15] == if a + b > 255 { 1u8 } else { 0u8 }
            &&& x != 15 ==> r->Ok_0.v[x as int] == (a + b) % 256
        }),
{
}

/// `8xy5` stores `(a - b) mod 256` and `8xy7` stores `(b - a) mod 256` in
/// `Vx`; each sets the flag to 1 exactly when its subtraction does not borrow.
pub proof fn lemma_sub_borrow(m: MachineModel, x: u8, y: u8, random: u8)
    requires
        m.wf(),
        x < 16,
        y < 16,
    ensures
        ({
            let (a, b) = (m.v[x as int], m.v[y as int]);
            let r = exec_spec(m, Instruction::Sub { x, y }, random);
            &&& r is Ok
            &&& r->Ok_0.v[15] == if a >= b { 1u8 } else { 0u8 }
            &&& x != 15 ==> r->Ok_0.v[x as int] == (a - b) % 256
        }),
        ({
            let (a, b) = (m.v[x as int], m.v[y as int]);
            let r = exec_spec(m, Instruction::SubReversed { x, y }, random);
            &&& r is Ok
            &&& r->Ok_0.v[15] == if b >= a { 1u8 } else { 0u8 }
            &&& x != 15 ==> r->Ok_0.v[x as int] == (b - a) % 256
        }),
{
}

/// Shifting right stores `v >> 1` and sets the flag to `v & 1`; shifting left
/// stores `(v << 1) mod 256` and sets the flag to `(v >> 7) & 1`.
pub proof fn lemma_shifts(m: MachineModel, x: u8, y: u8, random: u8)
    requires
        m.wf(),
        x < 16,
        y < 16,
    ensures
        ({
            let a = m.v[x as int];
            let r = exec_spec(m, Instruction::ShiftRight { x, y }, random);
            &&& r is Ok
            &&& r->Ok_0.v[15] == a & 1
            &&& x != 15 ==> r->Ok_0.v[x as int] == a >> 1
        }),
        ({
            let a = m.v[x as int];
            let r = exec_spec(m, Instruction::ShiftLeft { x, y }, random);
            &&& r is Ok
            &&& r->Ok_0.v[15] == (a >> 7) & 1
            &&& x != 15 ==> r->Ok_0.v[x as int] == ((a as u16) << 1u16) % 256
        }),
{
    let a = m.v[x as int];
    assert(a & 1 == a % 2 && a >> 1 == a / 2 && (a >> 7) & 1 == a / 128) by (bit_vector);
    let w = a as u16;
    assert(w < 256 ==> (w << 1u16) % 256 == (w * 2) % 256) by (bit_vector);
}

/// A call followed at once by a return comes back to the instruction after
/// the call, at the same stack depth, with nothing else changed but the freed
/// stack slot, which is cleared; this holds whenever the stack has room. A
/// call on a full stack overflows and a return on an empty one underflows.
pub proof fn lemma_call_return(m: MachineModel, nnn: u16, random: u8)
    requires
        m.wf(),
        m.pc < RAM_SIZE,
        nnn < 4096,
    ensures
        m.sp < 16 ==> ({
            let called = exec_spec(m, Instruction::Call { nnn }, random);
            &&& called is Ok
            &&& called->Ok_0.wf()
            &&& exec_spec(called->Ok_0, Instruction::Ret, random) == Ok::<MachineModel, ExecError>(
                MachineModel {
                    pc: (m.pc + 2) as u16,
                    stack: m.stack.update(m.sp as int, 0),
                    ..m
                },
            )
        }),
        m.sp == 16 ==> exec_spec(m, Instruction::Call { nnn }, random) == Err::<
            MachineModel,
            ExecError,
        >(ExecError::StackOverflow),
        m.sp == 0 ==> exec_spec(m, Instruction::Ret, random) == Err::<MachineModel, ExecError>(
            ExecError::StackUnderflow,
        ),
{
    if m.sp < 16 {
        let called = exec_spec(m, Instruction::Call { nnn }, random)->Ok_0;
        let back = exec_spec(called, Instruction::Ret, random)->Ok_0;
        assert(back.stack =~= m.stack.update(m.sp as int, 0));
    }
}

/// Calls to each of `targets` in turn, each callee calling the next, then as
/// many returns: the state after the whole nest, or the first error.
pub open spec fn nested_calls(m: MachineModel, targets: Seq<u16>, random: u8) -> Result<
    MachineModel,
    ExecError,
>
    decreases targets.len(),
{
    if targets.len() == 0 {
        Ok(m)
    } else {
        match exec_spec(m, Instruction::Call { nnn: targets[0] }, random) {
            Err(e) => Err(e),
            Ok(called) => match nested_calls(called, targets.drop_first(), random) {
                Err(e) => Err(e),
                Ok(inner) => exec_spec(inner, Instruction::Ret, random),
            },
        }
    }
}

/// Calls nested up to the stack's capacity each come back to the instruction
/// after them: the outermost return lands after the first call, at the first
/// call's depth, with the slots used cleared. One call more than the free
/// slots overflows, whatever the nest does.
pub proof fn lemma_nested_calls(m: MachineModel, targets: Seq<u16>, random: u8)
    requires
        m.wf(),
        m.pc < RAM_SIZE,
        forall|k: int| 0 <= k < targets.len() ==> #[trigger] targets[k] < 4096,
    ensures
        m.sp + targets.len() <= 16 && targets.len() > 0 ==> nested_calls(m, targets, random)
            == Ok::<MachineModel, ExecError>(
            MachineModel {
                pc: (m.pc + 2) as u16,
                stack: Seq::new(
                    16,
                    |k: int| if m.sp <= k < m.sp + targets.len() { 0u16 } else { m.stack[k] },
                ),
                ..m
            },
        ),
        m.sp + targets.len() > 16 ==> nested_calls(m, targets, random) == Err::<
            MachineModel,
            ExecError,
        >(ExecError::StackOverflow),
    decreases targets.len(),
{
    if targets.len() > 0 {
        let rest = targets.drop_first();
        assert forall|k: int| 0 <= k < rest.len() implies #[trigger] rest[k] < 4096 by {
            assert(rest[k] == targets[k + 1]);
        }
        if m.sp < 16 {
            let called = exec_spec(m, Instruction::Call { nnn: targets[0] }, random)->Ok_0;
            assert(called.wf());
            lemma_nested_calls(called, rest, random);
            if rest.len() > 0 && m.sp + targets.len() <= 16 {
                let inner = nested_calls(called, rest, random)->Ok_0;
                let back = exec_spec(inner, Instruction::Ret, random)->Ok_0;
                assert(back.stack =~= Seq::new(
                    16,
                    |k: int| if m.sp <= k < m.sp + targets.len() { 0u16 } else { m.stack[k] },
                ));
            } else if rest.len() == 0 {
                lemma_call_return(m, targets[0], random);
                assert(m.stack.update(m.sp as int, 0) =~= Seq::new(
                    16,
                    |k: int| if m.sp <= k < m.sp + targets.len() { 0u16 } else { m.stack[k] },
                ));
            }
        }
    }
}

/// Whether drawing the sprite turns some dark pixel on.
pub open spec fn draw_lights(pixels: Seq<bool>, ram: Seq<u8>, i: int, vx: u8, vy: u8, n: int) -> bool {
    exists|p: int|
        0 <= p < pixels.len() && #[trigger] sprite_covers(ram, i, (vx % 64) as int, (vy % 32) as int, n, p)
            && !pixels[p]
}

/// Drawing a sprite twice at the same place gives back the pixels from before
/// the first draw, and the second draw reports a collision exactly when the
/// first turned some pixel on.
pub proof fn lemma_draw_twice(pixels: Seq<bool>, ram: Seq<u8>, i: int, vx: u8, vy: u8, n: int)
    ensures
        drawn_pixels(drawn_pixels(pixels, ram, i, vx, vy, n), ram, i, vx, vy, n) == pixels,
        draw_collides(drawn_pixels(pixels, ram, i, vx, vy, n), ram, i, vx, vy, n) == draw_lights(
            pixels,
            ram,
            i,
            vx,
            vy,
            n,
        ),
{
    let once = drawn_pixels(pixels, ram, i, vx, vy, n);
    assert(drawn_pixels(once, ram, i, vx, vy, n) =~= pixels);
    if draw_lights(pixels, ram, i, vx, vy, n) {
        let p = choose|p: int|
            0 <= p < pixels.len() && #[trigger] sprite_covers(ram, i, (vx % 64) as int, (vy % 32) as int, n, p)
                && !pixels[p];
        assert(once[p]);
    }
}

/// Executing the same `Dxyn` twice, with neither coordinate register being the
/// flag register, restores the pixel buffer; the second run's flag is 1
/// exactly when the first turned some pixel on.
pub proof fn lemma_draw_instruction_twice(m: MachineModel, x: u8, y: u8, n: u8, random: u8)
    requires
        m.wf(),
        x < 15,
        y < 15,
        n < 16,
        m.i + n <= RAM_SIZE,
    ensures
        ({
            let ins = Instruction::Draw { x, y, n };
            let first = exec_spec(m, ins, random);
            let second = exec_spec(first->Ok_0, ins, random);
            &&& first is Ok
            &&& second is Ok
            &&& second->Ok_0.pixels == m.pixels
            &&& second->Ok_0.v[15] == if draw_lights(
                m.pixels,
                m.ram,
                m.i as int,
                m.v[x as int],
                m.v[y as int],
                n as int,
            ) {
                1u8
            } else {
                0u8
            }
        }),
{
    lemma_draw_twice(m.pixels, m.ram, m.i as int, m.v[x as int], m.v[y as int], n as int);
}

/// After `k` timer ticks the delay timer reads `delay - k`, and zero once `k`
/// reaches it; likewise the sound timer. Neither goes below zero.
pub proof fn lemma_ticks_count_down(m: MachineModel, k: nat)
    ensures
        ticked_times(m, k).delay == if k >= m.delay { 0 } else { m.delay - k },
        ticked_times(m, k).sound == if k >= m.sound { 0 } else { m.sound - k },
    decreases k,
{
    if k > 0 {
        lemma_ticks_count_down(m, (k - 1) as nat);
    }
}

/// Every instruction but `Fx15` leaves the delay timer as it was.
pub proof fn lemma_delay_kept(m: MachineModel, ins: Instruction, random: u8)
    requires
        !(ins is SetDelay),
        exec_spec(m, ins, random) is Ok,
    ensures
        exec_spec(m, ins, random)->Ok_0.delay == m.delay,
{
}

/// A step, whatever the random source gives, leaves the delay timer as it was
/// unless it executes `Fx15`; so between timer ticks the count down goes on
/// however many other instructions run.
pub proof fn lemma_step_keeps_delay(m: MachineModel, draw: Option<u8>)
    requires
        step_drawn(m, draw) is Ok,
        m.awaiting_key is None && m.pc + 1 < RAM_SIZE ==> !(decode_spec(
            word_at(m.ram, m.pc as int),
        ) is SetDelay),
    ensures
        step_drawn(m, draw)->Ok_0.delay == m.delay,
{
    reveal(step_drawn);
}

} // verus!
