use vstd::prelude::*;
use crate::machine::{
    ExecError, Emulator, MachineModel, FLAG_REGISTER, RAM_SIZE, SCREEN_SIZE, SCREEN_WIDTH,
    SCREEN_HEIGHT,
};
use crate::decode::Instruction;
use crate::machine::{get_op_code, pop_from_stack, push_to_stack, word_at, KEY_COUNT};
use crate::decode::{decode, decode_spec};

verus! {

/// Policy for `Fx1E`: whether adding to `I` past `0xFFF` also sets the flag
/// register. This machine leaves the flag alone.
pub const INDEX_OVERFLOW_SETS_FLAG: bool = false;

/// Bytes per font glyph; the glyph of digit `d` is taken to start at `d * 5`.
pub const FONT_GLYPH_SIZE: u16 = 5;

/// The program counter moved past the current instruction.
pub open spec fn advanced(m: MachineModel) -> MachineModel {
    MachineModel { pc: (m.pc + 2) as u16, ..m }
}

/// The program counter moved past the current instruction, and past the
/// next one too when `cond` holds.
pub open spec fn skipped_if(m: MachineModel, cond: bool) -> MachineModel {
    MachineModel { pc: (m.pc + if cond { 4int } else { 2int }) as u16, ..m }
}

/// Register `x` set to `val`.
pub open spec fn with_reg(m: MachineModel, x: int, val: u8) -> MachineModel {
    MachineModel { v: m.v.update(x, val), ..m }
}

/// Register `x` set to `val`, then the flag register set to `flag`: the flag
/// wins when `x` is the flag register.
pub open spec fn with_reg_and_flag(m: MachineModel, x: int, val: u8, flag: u8) -> MachineModel {
    MachineModel { v: m.v.update(x, val).update(FLAG_REGISTER as int, flag), ..m }
}

/// Whether bit `dx` (0 the leftmost) of `row` is set.
pub open spec fn sprite_bit(row: u8, dx: int) -> bool {
    (row >> ((7 - dx) as u8)) & 1u8 == 1u8
}

/// Whether drawing the `n`-row sprite at memory `i` with its top left corner at
/// `(x0, y0)` flips cell `p`. Coordinates wrap around both edges.
pub open spec fn sprite_covers(ram: Seq<u8>, i: int, x0: int, y0: int, n: int, p: int) -> bool {
    let dx = (p % 64 - x0) % 64;
    let dy = (p / 64 - y0) % 32;
    dy < n && dx < 8 && sprite_bit(ram[i + dy], dx)
}

/// The pixel buffer after XOR-drawing the sprite at `(vx, vy)`.
pub open spec fn drawn_pixels(pixels: Seq<bool>, ram: Seq<u8>, i: int, vx: u8, vy: u8, n: int) -> Seq<
    bool,
> {
    Seq::new(
        pixels.len(),
        |p: int| pixels[p] != sprite_covers(ram, i, (vx % 64) as int, (vy % 32) as int, n, p),
    )
}

/// Whether drawing the sprite at `(vx, vy)` turns some lit pixel off.
pub open spec fn draw_collides(pixels: Seq<bool>, ram: Seq<u8>, i: int, vx: u8, vy: u8, n: int) -> bool {
    exists|p: int|
        0 <= p < pixels.len() && #[trigger] sprite_covers(ram, i, (vx % 64) as int, (vy % 32) as int, n, p)
            && pixels[p]
}

/// Memory after writing the hundreds, tens and ones of `val` at `i`.
pub open spec fn bcd_ram(ram: Seq<u8>, i: int, val: u8) -> Seq<u8> {
    ram.update(i, val / 100).update(i + 1, (val / 10) % 10).update(i + 2, val % 10)
}

/// Memory after storing registers `0..=x` at `i`.
pub open spec fn stored_ram(ram: Seq<u8>, v: Seq<u8>, i: int, x: int) -> Seq<u8> {
    Seq::new(ram.len(), |a: int| if i <= a <= i + x { v[a - i] } else { ram[a] })
}

/// Registers after loading `0..=x` from memory at `i`.
pub open spec fn loaded_regs(v: Seq<u8>, ram: Seq<u8>, i: int, x: int) -> Seq<u8> {
    Seq::new(v.len(), |r: int| if r <= x { ram[i + r] } else { v[r] })
}

/// The effect of executing `ins` on machine `m`, with `random` the byte drawn
/// for `Cxkk`: the next state, or the error that halts the machine.
pub open spec fn exec_spec(m: MachineModel, ins: Instruction, random: u8) -> Result<
    MachineModel,
    ExecError,
> {
    let s = advanced(m);
    match ins {
        Instruction::Sys { .. } => Ok(s),
        Instruction::Cls => Ok(MachineModel { pixels: Seq::new(SCREEN_SIZE as nat, |p: int| false), ..s }),
        Instruction::Ret => if m.sp == 0 {
            Err(ExecError::StackUnderflow)
        } else {
            Ok(
                MachineModel {
                    pc: m.stack[m.sp - 1],
                    stack: m.stack.update(m.sp - 1, 0),
                    sp: (m.sp - 1) as u8,
                    ..m
                },
            )
        },
        Instruction::Jump { nnn } => Ok(MachineModel { pc: nnn, ..m }),
        Instruction::Call { nnn } => if m.sp >= 16 {
            Err(ExecError::StackOverflow)
        } else {
            Ok(
                MachineModel {
                    pc: nnn,
                    stack: m.stack.update(m.sp as int, (m.pc + 2) as u16),
                    sp: (m.sp + 1) as u8,
                    ..m
                },
            )
        },
        Instruction::SkipEqImm { x, kk } => Ok(skipped_if(m, m.v[x as int] == kk)),
        Instruction::SkipNeImm { x, kk } => Ok(skipped_if(m, m.v[x as int] != kk)),
        Instruction::SkipEqReg { x, y } => Ok(skipped_if(m, m.v[x as int] == m.v[y as int])),
        Instruction::LoadImm { x, kk } => Ok(with_reg(s, x as int, kk)),
        Instruction::AddImm { x, kk } => Ok(with_reg(s, x as int, ((m.v[x as int] + kk) % 256) as u8)),
        Instruction::Copy { x, y } => Ok(with_reg(s, x as int, m.v[y as int])),
        Instruction::Or { x, y } => Ok(with_reg(s, x as int, m.v[x as int] | m.v[y as int])),
        Instruction::And { x, y } => Ok(with_reg(s, x as int, m.v[x as int] & m.v[y as int])),
        Instruction::Xor { x, y } => Ok(with_reg(s, x as int, m.v[x as int] ^ m.v[y as int])),
        Instruction::AddReg { x, y } => {
            let sum = m.v[x as int] + m.v[y as int];
            Ok(with_reg_and_flag(s, x as int, (sum % 256) as u8, if sum > 255 { 1 } else { 0 }))
        },
        Instruction::Sub { x, y } => {
            let (a, b) = (m.v[x as int], m.v[y as int]);
            Ok(with_reg_and_flag(s, x as int, ((a - b) % 256) as u8, if a >= b { 1 } else { 0 }))
        },
        Instruction::ShiftRight { x, .. } => {
            let a = m.v[x as int];
            Ok(with_reg_and_flag(s, x as int, a / 2, a % 2))
        },
        Instruction::SubReversed { x, y } => {
            let (a, b) = (m.v[x as int], m.v[y as int]);
            Ok(with_reg_and_flag(s, x as int, ((b - a) % 256) as u8, if b >= a { 1 } else { 0 }))
        },
        Instruction::ShiftLeft { x, .. } => {
            let a = m.v[x as int];
            Ok(with_reg_and_flag(s, x as int, ((a * 2) % 256) as u8, a / 128))
        },
        Instruction::SkipNeReg { x, y } => Ok(skipped_if(m, m.v[x as int] != m.v[y as int])),
        Instruction::LoadIndex { nnn } => Ok(MachineModel { i: nnn, ..s }),
        Instruction::JumpOffset { nnn } => Ok(MachineModel { pc: (m.v[0] + nnn) as u16, ..m }),
        Instruction::Random { x, kk } => Ok(with_reg(s, x as int, random & kk)),
        Instruction::Draw { x, y, n } => if m.i + n > RAM_SIZE {
            Err(ExecError::AddressOutOfRange)
        } else {
            let (vx, vy) = (m.v[x as int], m.v[y as int]);
            let hit = draw_collides(m.pixels, m.ram, m.i as int, vx, vy, n as int);
            Ok(
                MachineModel {
                    pixels: drawn_pixels(m.pixels, m.ram, m.i as int, vx, vy, n as int),
                    v: m.v.update(FLAG_REGISTER as int, if hit { 1 } else { 0 }),
                    ..s
                },
            )
        },
        Instruction::SkipKeyPressed { x } => Ok(skipped_if(m, m.keys[(m.v[x as int] % 16) as int])),
        Instruction::SkipKeyNotPressed { x } => Ok(skipped_if(m, !m.keys[(m.v[x as int] % 16) as int])),
        Instruction::LoadDelay { x } => Ok(with_reg(s, x as int, m.delay)),
        Instruction::WaitKey { x } => Ok(MachineModel { awaiting_key: Some(x), ..s }),
        Instruction::SetDelay { x } => Ok(MachineModel { delay: m.v[x as int], ..s }),
        Instruction::SetSound { x } => Ok(MachineModel { sound: m.v[x as int], ..s }),
        Instruction::AddIndex { x } => {
            let sum = m.i + m.v[x as int];
            let t = MachineModel { i: (sum % 65536) as u16, ..s };
            if INDEX_OVERFLOW_SETS_FLAG {
                Ok(with_reg(t, FLAG_REGISTER as int, if sum > 0xFFF { 1 } else { 0 }))
            } else {
                Ok(t)
            }
        },
        Instruction::LoadFont { x } => Ok(
            MachineModel { i: ((m.v[x as int] % 16) * FONT_GLYPH_SIZE) as u16, ..s },
        ),
        Instruction::StoreBcd { x } => if m.i + 2 >= RAM_SIZE {
            Err(ExecError::AddressOutOfRange)
        } else {
            Ok(MachineModel { ram: bcd_ram(m.ram, m.i as int, m.v[x as int]), ..s })
        },
        Instruction::StoreRegs { x } => if m.i + x >= RAM_SIZE {
            Err(ExecError::AddressOutOfRange)
        } else {
            Ok(MachineModel { ram: stored_ram(m.ram, m.v, m.i as int, x as int), ..s })
        },
        Instruction::LoadRegs { x } => if m.i + x >= RAM_SIZE {
            Err(ExecError::AddressOutOfRange)
        } else {
            Ok(MachineModel { v: loaded_regs(m.v, m.ram, m.i as int, x as int), ..s })
        },
        Instruction::Unknown { word } => Err(ExecError::UnknownOpcode(word)),
    }
}

/// `exec` is what `exec_spec` gives: the new state on success; on an error,
/// that error with the machine untouched.
pub open spec fn exec_outcome(
    before: MachineModel,
    ins: Instruction,
    random: u8,
    r: Result<(), ExecError>,
    after: MachineModel,
) -> bool {
    match exec_spec(before, ins, random) {
        Ok(m) => r == Ok::<(), ExecError>(()) && after == m,
        Err(e) => r == Err::<(), ExecError>(e) && after == before,
    }
}

/// XORs the `n`-row sprite at memory `I` onto the pixel buffer at
/// `(vx, vy)`; returns whether a lit pixel went dark. Touches nothing else.
fn draw_sprite(emulator: &mut Emulator, vx: u8, vy: u8, n: u8) -> (hit: bool)
    requires
        old(emulator).wf(),
        old(emulator).i_register + n <= RAM_SIZE,
    ensures
        final(emulator)@ == (MachineModel {
            pixels: drawn_pixels(
                old(emulator)@.pixels,
                old(emulator)@.ram,
                old(emulator)@.i as int,
                vx,
                vy,
                n as int,
            ),
            ..old(emulator)@
        }),
        hit == draw_collides(
            old(emulator)@.pixels,
            old(emulator)@.ram,
            old(emulator)@.i as int,
            vx,
            vy,
            n as int,
        ),
{
    let ghost before = emulator@;
    let x0: usize = (vx as usize) % SCREEN_WIDTH;
    let y0: usize = (vy as usize) % SCREEN_HEIGHT;
    let base: usize = emulator.i_register as usize;
    let mut hit = false;
    let mut p: usize = 0;
    while p < SCREEN_SIZE
        invariant
            emulator.wf(),
            before.wf(),
            emulator@ == (MachineModel { pixels: emulator@.pixels, ..before }),
            base == before.i,
            base + n <= RAM_SIZE,
            x0 == vx % 64,
            y0 == vy % 32,
            p <= SCREEN_SIZE,
            forall|q: int|
                0 <= q < SCREEN_SIZE ==> #[trigger] emulator@.pixels[q] == if q < p {
                    before.pixels[q] != sprite_covers(before.ram, before.i as int, (vx % 64) as int, (vy % 32) as int, n as int, q)
                } else {
                    before.pixels[q]
                },
            hit == exists|q: int| 0 <= q < p && #[trigger] sprite_covers(before.ram, before.i as int, (vx % 64) as int, (vy % 32) as int, n as int, q) && before.pixels[q],
        decreases SCREEN_SIZE - p,
    {
        let dx: usize = (p % SCREEN_WIDTH + SCREEN_WIDTH - x0) % SCREEN_WIDTH;
        let dy: usize = (p / SCREEN_WIDTH + SCREEN_HEIGHT - y0) % SCREEN_HEIGHT;
        assert(dx == (p % 64 - x0) % 64);
        assert(dy == (p / 64 - y0) % 32);
        let mut flips = false;
        if dy < n as usize && dx < 8 {
            let row = emulator.ram[base + dy];
            flips = (row >> ((7 - dx) as u8)) & 1u8 == 1u8;
            assert(flips == sprite_bit(before.ram[before.i + dy], dx as int));
        }
        assert(sprite_covers(before.ram, before.i as int, x0 as int, y0 as int, n as int, p as int) == (dy < n && dx < 8 && sprite_bit(
            before.ram[before.i + dy],
            dx as int,
        )));
        assert(flips == sprite_covers(before.ram, before.i as int, (vx % 64) as int, (vy % 32) as int, n as int, p as int));
        if flips {
            let lit = emulator.pixels[p];
            if lit {
                hit = true;
            }
            emulator.pixels.set(p, !lit);
        }
        assert(hit == exists|q: int| 0 <= q < p + 1 && #[trigger] sprite_covers(before.ram, before.i as int, (vx % 64) as int, (vy % 32) as int, n as int, q) && before.pixels[q]);
        p = p + 1;
    }
    assert(emulator.pixels@ =~= drawn_pixels(before.pixels, before.ram, before.i as int, vx, vy, n as int));
    hit
}

/// Copies registers `0..=x` to memory at `I`.
fn store_registers(emulator: &mut Emulator, x: u8)
    requires
        old(emulator).wf(),
        x < 16,
        old(emulator).i_register + x < RAM_SIZE,
    ensures
        final(emulator)@ == (MachineModel {
            ram: stored_ram(old(emulator)@.ram, old(emulator)@.v, old(emulator)@.i as int, x as int),
            ..old(emulator)@
        }),
{
    let ghost before = emulator@;
    let base: usize = emulator.i_register as usize;
    let mut k: usize = 0;
    while k <= x as usize
        invariant
            emulator.wf(),
            before.wf(),
            emulator@ == (MachineModel { ram: emulator@.ram, ..before }),
            base == before.i,
            base + x < RAM_SIZE,
            x < 16,
            k <= x + 1,
            emulator@.ram =~= Seq::new(
                RAM_SIZE as nat,
                |a: int| if base <= a < base + k { before.v[a - base] } else { before.ram[a] },
            ),
        decreases x + 1 - k,
    {
        let val = emulator.v_registers[k];
        emulator.ram.set(base + k, val);
        k = k + 1;
    }
    assert(emulator.ram@ =~= stored_ram(before.ram, before.v, base as int, x as int));
}

/// Copies memory at `I` to registers `0..=x`.
fn load_registers(emulator: &mut Emulator, x: u8)
    requires
        old(emulator).wf(),
        x < 16,
        old(emulator).i_register + x < RAM_SIZE,
    ensures
        final(emulator)@ == (MachineModel {
            v: loaded_regs(old(emulator)@.v, old(emulator)@.ram, old(emulator)@.i as int, x as int),
            ..old(emulator)@
        }),
{
    let ghost before = emulator@;
    let base: usize = emulator.i_register as usize;
    let mut k: usize = 0;
    while k <= x as usize
        invariant
            emulator.wf(),
            before.wf(),
            emulator@ == (MachineModel { v: emulator@.v, ..before }),
            base == before.i,
            base + x < RAM_SIZE,
            x < 16,
            k <= x + 1,
            emulator@.v =~= Seq::new(
                16,
                |r: int| if r < k { before.ram[base + r] } else { before.v[r] },
            ),
        decreases x + 1 - k,
    {
        let val = emulator.ram[base + k];
        emulator.v_registers.set(k, val);
        k = k + 1;
    }
    assert(emulator.v_registers@ =~= loaded_regs(before.v, before.ram, base as int, x as int));
}

/// Writes `Vx = val`, then `VF = flag`.
fn set_with_flag(emulator: &mut Emulator, x: u8, val: u8, flag: u8)
    requires
        old(emulator).wf(),
        x < 16,
    ensures
        final(emulator)@ == with_reg_and_flag(old(emulator)@, x as int, val, flag),
{
    emulator.v_registers.set(x as usize, val);
    emulator.v_registers.set(FLAG_REGISTER, flag);
}

/// Executes an instruction of the control flow: jumps, calls, returns, skips and screen clearing.
fn execute_flow(emulator: &mut Emulator, ins: Instruction, random: u8) -> (r: Result<(), ExecError>)
    requires
        old(emulator).wf(),
        ins.wf(),
        old(emulator).program_counter < RAM_SIZE,
        matches!(
            ins,
            Instruction::Sys { .. }
            | Instruction::Cls
            | Instruction::Ret
            | Instruction::Jump { .. }
            | Instruction::Call { .. }
            | Instruction::SkipEqImm { .. }
            | Instruction::SkipNeImm { .. }
            | Instruction::SkipEqReg { .. }
            | Instruction::SkipNeReg { .. }
            | Instruction::JumpOffset { .. }
            | Instruction::SkipKeyPressed { .. }
            | Instruction::SkipKeyNotPressed { .. },
        ),
    ensures
        final(emulator).wf(),
        exec_outcome(old(emulator)@, ins, random, r, final(emulator)@),
{
    let next = emulator.program_counter + 2;
    match ins {
        Instruction::Sys { .. } => {
            emulator.program_counter = next;
        },
        Instruction::Cls => {
            let mut p: usize = 0;
            while p < SCREEN_SIZE
                invariant
                    emulator.wf(),
                    emulator@ == (MachineModel { pixels: emulator@.pixels, ..old(emulator)@ }),
                    p <= SCREEN_SIZE,
                    forall|q: int| 0 <= q < p ==> !#[trigger] emulator@.pixels[q],
                decreases SCREEN_SIZE - p,
            {
                emulator.pixels.set(p, false);
                p = p + 1;
            }
            assert(emulator.pixels@ =~= Seq::new(SCREEN_SIZE as nat, |q: int| false));
            emulator.program_counter = next;
        },
        Instruction::Ret => {
            let address = pop_from_stack(emulator)?;
            emulator.program_counter = address;
        },
        Instruction::Jump { nnn } => {
            emulator.program_counter = nnn;
        },
        Instruction::Call { nnn } => {
            push_to_stack(emulator, next)?;
            emulator.program_counter = nnn;
        },
        Instruction::SkipEqImm { x, kk } => {
            let skip = emulator.v_registers[x as usize] == kk;
            emulator.program_counter = if skip { next + 2 } else { next };
        },
        Instruction::SkipNeImm { x, kk } => {
            let skip = emulator.v_registers[x as usize] != kk;
            emulator.program_counter = if skip { next + 2 } else { next };
        },
        Instruction::SkipEqReg { x, y } => {
            let skip = emulator.v_registers[x as usize] == emulator.v_registers[y as usize];
            emulator.program_counter = if skip { next + 2 } else { next };
        },
        Instruction::SkipNeReg { x, y } => {
            let skip = emulator.v_registers[x as usize] != emulator.v_registers[y as usize];
            emulator.program_counter = if skip { next + 2 } else { next };
        },
        Instruction::JumpOffset { nnn } => {
            emulator.program_counter = emulator.v_registers[0] as u16 + nnn;
        },
        Instruction::SkipKeyPressed { x } => {
            let key = (emulator.v_registers[x as usize] % 16) as usize;
            let skip = emulator.keys[key];
            emulator.program_counter = if skip { next + 2 } else { next };
        },
        Instruction::SkipKeyNotPressed { x } => {
            let key = (emulator.v_registers[x as usize] % 16) as usize;
            let skip = !emulator.keys[key];
            emulator.program_counter = if skip { next + 2 } else { next };
        },
        _ => {},
    }
    Ok(())
}

/// Executes an instruction of the register loads and arithmetic.
#[verifier::spinoff_prover]
fn execute_alu(emulator: &mut Emulator, ins: Instruction, random: u8) -> (r: Result<(), ExecError>)
    requires
        old(emulator).wf(),
        ins.wf(),
        old(emulator).program_counter < RAM_SIZE,
        matches!(
            ins,
            Instruction::LoadImm { .. }
            | Instruction::AddImm { .. }
            | Instruction::Copy { .. }
            | Instruction::Or { .. }
            | Instruction::And { .. }
            | Instruction::Xor { .. }
            | Instruction::AddReg { .. }
            | Instruction::Sub { .. }
            | Instruction::ShiftRight { .. }
            | Instruction::SubReversed { .. }
            | Instruction::ShiftLeft { .. }
            | Instruction::Random { .. },
        ),
    ensures
        final(emulator).wf(),
        exec_outcome(old(emulator)@, ins, random, r, final(emulator)@),
{
    let next = emulator.program_counter + 2;
    match ins {
        Instruction::LoadImm { x, kk } => {
            emulator.program_counter = next;
            emulator.v_registers.set(x as usize, kk);
        },
        Instruction::AddImm { x, kk } => {
            let vx = emulator.v_registers[x as usize];
            emulator.program_counter = next;
            emulator.v_registers.set(x as usize, ((vx as u16 + kk as u16) % 256) as u8);
        },
        Instruction::Copy { x, y } => {
            let vy = emulator.v_registers[y as usize];
            emulator.program_counter = next;
            emulator.v_registers.set(x as usize, vy);
        },
        Instruction::Or { x, y } => {
            let val = emulator.v_registers[x as usize] | emulator.v_registers[y as usize];
            emulator.program_counter = next;
            emulator.v_registers.set(x as usize, val);
        },
        Instruction::And { x, y } => {
            let val = emulator.v_registers[x as usize] & emulator.v_registers[y as usize];
            emulator.program_counter = next;
            emulator.v_registers.set(x as usize, val);
        },
        Instruction::Xor { x, y } => {
            let val = emulator.v_registers[x as usize] ^ emulator.v_registers[y as usize];
            emulator.program_counter = next;
            emulator.v_registers.set(x as usize, val);
        },
        Instruction::AddReg { x, y } => {
            let sum = emulator.v_registers[x as usize] as u16 + emulator.v_registers[y as usize] as u16;
            emulator.program_counter = next;
            set_with_flag(emulator, x, (sum % 256) as u8, if sum > 255 { 1 } else { 0 });
        },
        Instruction::Sub { x, y } => {
            let a = emulator.v_registers[x as usize];
            let b = emulator.v_registers[y as usize];
            let diff: u8 = if a >= b { a - b } else { (a as u16 + 256 - b as u16) as u8 };
            assert(diff == ((a - b) % 256) as u8);
            emulator.program_counter = next;
            set_with_flag(emulator, x, diff, if a >= b { 1 } else { 0 });
        },
        Instruction::ShiftRight { x, .. } => {
            let a = emulator.v_registers[x as usize];
            emulator.program_counter = next;
            set_with_flag(emulator, x, a / 2, a % 2);
        },
        Instruction::SubReversed { x, y } => {
            let a = emulator.v_registers[x as usize];
            let b = emulator.v_registers[y as usize];
            let diff: u8 = if b >= a { b - a } else { (b as u16 + 256 - a as u16) as u8 };
            assert(diff == ((b - a) % 256) as u8);
            emulator.program_counter = next;
            set_with_flag(emulator, x, diff, if b >= a { 1 } else { 0 });
        },
        Instruction::ShiftLeft { x, .. } => {
            let a = emulator.v_registers[x as usize];
            emulator.program_counter = next;
            set_with_flag(emulator, x, ((a as u16 * 2) % 256) as u8, a / 128);
        },
        Instruction::Random { x, kk } => {
            emulator.program_counter = next;
            emulator.v_registers.set(x as usize, random & kk);
        },
        _ => {},
    }
    Ok(())
}

/// Executes an instruction of the index register, memory, drawing, timers and keys.
fn execute_other(emulator: &mut Emulator, ins: Instruction, random: u8) -> (r: Result<(), ExecError>)
    requires
        old(emulator).wf(),
        ins.wf(),
        old(emulator).program_counter < RAM_SIZE,
        matches!(
            ins,
            Instruction::LoadIndex { .. }
            | Instruction::Draw { .. }
            | Instruction::LoadDelay { .. }
            | Instruction::WaitKey { .. }
            | Instruction::SetDelay { .. }
            | Instruction::SetSound { .. }
            | Instruction::AddIndex { .. }
            | Instruction::LoadFont { .. }
            | Instruction::StoreBcd { .. }
            | Instruction::StoreRegs { .. }
            | Instruction::LoadRegs { .. }
            | Instruction::Unknown { .. },
        ),
    ensures
        final(emulator).wf(),
        exec_outcome(old(emulator)@, ins, random, r, final(emulator)@),
{
    let next = emulator.program_counter + 2;
    match ins {
        Instruction::LoadIndex { nnn } => {
            emulator.program_counter = next;
            emulator.i_register = nnn;
        },
        Instruction::Draw { x, y, n } => {
            if emulator.i_register as usize + n as usize > RAM_SIZE {
                return Err(ExecError::AddressOutOfRange);
            }
            let vx = emulator.v_registers[x as usize];
            let vy = emulator.v_registers[y as usize];
            let hit = draw_sprite(emulator, vx, vy, n);
            emulator.program_counter = next;
            emulator.v_registers.set(FLAG_REGISTER, if hit { 1 } else { 0 });
        },
        Instruction::LoadDelay { x } => {
            let delay = emulator.delay_timer;
            emulator.program_counter = next;
            emulator.v_registers.set(x as usize, delay);
        },
        Instruction::WaitKey { x } => {
            emulator.program_counter = next;
            emulator.awaiting_key = Some(x);
        },
        Instruction::SetDelay { x } => {
            emulator.program_counter = next;
            emulator.delay_timer = emulator.v_registers[x as usize];
        },
        Instruction::SetSound { x } => {
            emulator.program_counter = next;
            emulator.sound_timer = emulator.v_registers[x as usize];
        },
        Instruction::AddIndex { x } => {
            let sum = emulator.i_register as u32 + emulator.v_registers[x as usize] as u32;
            emulator.program_counter = next;
            emulator.i_register = (sum % 65536) as u16;
            if INDEX_OVERFLOW_SETS_FLAG {
                emulator.v_registers.set(FLAG_REGISTER, if sum > 0xFFF { 1 } else { 0 });
            }
        },
        Instruction::LoadFont { x } => {
            let digit = (emulator.v_registers[x as usize] % 16) as u16;
            emulator.program_counter = next;
            emulator.i_register = digit * FONT_GLYPH_SIZE;
        },
        Instruction::StoreBcd { x } => {
            let base = emulator.i_register as usize;
            if base + 2 >= RAM_SIZE {
                return Err(ExecError::AddressOutOfRange);
            }
            let val = emulator.v_registers[x as usize];
            emulator.program_counter = next;
            emulator.ram.set(base, val / 100);
            emulator.ram.set(base + 1, (val / 10) % 10);
            emulator.ram.set(base + 2, val % 10);
        },
        Instruction::StoreRegs { x } => {
            if emulator.i_register as usize + x as usize >= RAM_SIZE {
                return Err(ExecError::AddressOutOfRange);
            }
            store_registers(emulator, x);
            emulator.program_counter = next;
        },
        Instruction::LoadRegs { x } => {
            if emulator.i_register as usize + x as usize >= RAM_SIZE {
                return Err(ExecError::AddressOutOfRange);
            }
            load_registers(emulator, x);
            emulator.program_counter = next;
        },
        Instruction::Unknown { word } => {
            return Err(ExecError::UnknownOpcode(word));
        },
        _ => {},
    }
    Ok(())
}

/// Executes one decoded instruction. The program counter first moves past the
/// instruction; jumps, calls, returns and skips then redirect it. `random` is
/// the byte that `Cxkk` masks. On an error the machine is left as it was.
pub fn execute_op_code(emulator: &mut Emulator, ins: Instruction, random: u8) -> (r: Result<
    (),
    ExecError,
>)
    requires
        old(emulator).wf(),
        ins.wf(),
        old(emulator).program_counter < RAM_SIZE,
    ensures
        final(emulator).wf(),
        exec_outcome(old(emulator)@, ins, random, r, final(emulator)@),
{
    match ins {
        Instruction::Sys { .. }
        | Instruction::Cls
        | Instruction::Ret
        | Instruction::Jump { .. }
        | Instruction::Call { .. }
        | Instruction::SkipEqImm { .. }
        | Instruction::SkipNeImm { .. }
        | Instruction::SkipEqReg { .. }
        | Instruction::SkipNeReg { .. }
        | Instruction::JumpOffset { .. }
        | Instruction::SkipKeyPressed { .. }
        | Instruction::SkipKeyNotPressed { .. } => execute_flow(emulator, ins, random),
        Instruction::LoadImm { .. }
        | Instruction::AddImm { .. }
        | Instruction::Copy { .. }
        | Instruction::Or { .. }
        | Instruction::And { .. }
        | Instruction::Xor { .. }
        | Instruction::AddReg { .. }
        | Instruction::Sub { .. }
        | Instruction::ShiftRight { .. }
        | Instruction::SubReversed { .. }
        | Instruction::ShiftLeft { .. }
        | Instruction::Random { .. } => execute_alu(emulator, ins, random),
        _ => execute_other(emulator, ins, random),
    }
}
/// One fetch-decode-execute cycle with `random` as the byte for `Cxkk`: a
/// machine waiting for a key stays as it is; a program counter whose word
/// would lie past the end of memory halts it.
pub open spec fn step_spec(m: MachineModel, random: u8) -> Result<MachineModel, ExecError> {
    if m.awaiting_key is Some {
        Ok(m)
    } else if m.pc + 1 >= RAM_SIZE {
        Err(ExecError::AddressOutOfRange)
    } else {
        exec_spec(m, decode_spec(word_at(m.ram, m.pc as int)), random)
    }
}

/// `step` is what `step_spec` gives: the new state on success; on an error,
/// that error with the machine untouched.
pub open spec fn step_outcome(
    before: MachineModel,
    random: u8,
    r: Result<(), ExecError>,
    after: MachineModel,
) -> bool {
    match step_spec(before, random) {
        Ok(m) => r == Ok::<(), ExecError>(()) && after == m,
        Err(e) => r == Err::<(), ExecError>(e) && after == before,
    }
}

/// Fetches, decodes and executes the instruction at the program counter,
/// with `random` as the byte for `Cxkk`.
pub fn step_with(emulator: &mut Emulator, random: u8) -> (r: Result<(), ExecError>)
    requires
        old(emulator).wf(),
    ensures
        final(emulator).wf(),
        step_outcome(old(emulator)@, random, r, final(emulator)@),
{
    if emulator.awaiting_key.is_some() {
        return Ok(());
    }
    if emulator.program_counter as usize + 1 >= RAM_SIZE {
        return Err(ExecError::AddressOutOfRange);
    }
    let word = get_op_code(emulator);
    let ins = decode(word);
    execute_op_code(emulator, ins, random)
}

/// Relies on `rand::rngs::OsRng`'s `RngCore::try_fill_bytes` (rand_core): one
/// byte from the operating system's generator, or `None` where it reports an
/// error. Nothing is known of the byte's value.
#[verifier::external_body]
fn random_byte() -> (r: Option<u8>) {
    let mut buf = [0u8; 1];
    match rand::RngCore::try_fill_bytes(&mut rand::rngs::OsRng, &mut buf) {
        Ok(()) => Some(buf[0]),
        Err(_) => None,
    }
}

/// Whether the next step executes `Cxkk`, and so needs a random byte.
pub open spec fn draws_random(m: MachineModel) -> bool {
    &&& m.awaiting_key is None
    &&& m.pc + 1 < RAM_SIZE
    &&& decode_spec(word_at(m.ram, m.pc as int)) is Random
}

/// One step where `draw` is what the random source gave: a byte, or `None` when
/// it failed. A failure halts the machine only if the step needs the byte.
#[verifier::opaque]
pub open spec fn step_drawn(m: MachineModel, draw: Option<u8>) -> Result<MachineModel, ExecError> {
    match draw {
        Some(b) => step_spec(m, b),
        None => if draws_random(m) {
            Err(ExecError::RandomUnavailable)
        } else {
            step_spec(m, 0)
        },
    }
}

/// `step` is what `step_drawn` gives: the new state on success; on an error,
/// that error with the machine untouched.
pub open spec fn step_drawn_outcome(
    before: MachineModel,
    draw: Option<u8>,
    r: Result<(), ExecError>,
    after: MachineModel,
) -> bool {
    match step_drawn(before, draw) {
        Ok(m) => r == Ok::<(), ExecError>(()) && after == m,
        Err(e) => r == Err::<(), ExecError>(e) && after == before,
    }
}

/// Fetches, decodes and executes the instruction at the program counter,
/// drawing a random byte from the operating system for `Cxkk`. If that draw
/// fails, the machine halts with `RandomUnavailable`.
pub fn step(emulator: &mut Emulator) -> (r: Result<(), ExecError>)
    requires
        old(emulator).wf(),
    ensures
        final(emulator).wf(),
        exists|draw: Option<u8>| #[trigger] step_drawn_outcome(old(emulator)@, draw, r, final(emulator)@),
{
    reveal(step_drawn);
    let ghost before = emulator@;
    let ghost mut draw: Option<u8> = Some(0u8);
    let mut random: u8 = 0;
    if emulator.awaiting_key.is_none() && (emulator.program_counter as usize) + 1 < RAM_SIZE {
        let word = get_op_code(emulator);
        if let Instruction::Random { .. } = decode(word) {
            match random_byte() {
                Some(b) => {
                    random = b;
                    proof {
                        draw = Some(b);
                    }
                },
                None => {
                    assert(step_drawn_outcome(before, None, Err(ExecError::RandomUnavailable), before));
                    return Err(ExecError::RandomUnavailable);
                },
            }
        }
    }
    let r = step_with(emulator, random);
    assert(step_drawn_outcome(before, draw, r, emulator@));
    r
}

/// The machine after key `key` goes down: a pending `Fx0A` receives it.
pub open spec fn pressed(m: MachineModel, key: u8) -> MachineModel {
    match m.awaiting_key {
        Some(x) => MachineModel {
            keys: m.keys.update(key as int, true),
            v: m.v.update(x as int, key),
            awaiting_key: None,
            ..m
        },
        None => MachineModel { keys: m.keys.update(key as int, true), ..m },
    }
}

/// Records that key `key` went down; a machine waiting on `Fx0A` stores the
/// key in its register and resumes.
pub fn press_key(emulator: &mut Emulator, key: u8)
    requires
        old(emulator).wf(),
        key < KEY_COUNT,
    ensures
        final(emulator).wf(),
        final(emulator)@ == pressed(old(emulator)@, key),
{
    emulator.keys.set(key as usize, true);
    if let Some(x) = emulator.awaiting_key {
        emulator.v_registers.set(x as usize, key);
        emulator.awaiting_key = None;
    }
}

/// Records that key `key` went up.
pub fn release_key(emulator: &mut Emulator, key: u8)
    requires
        old(emulator).wf(),
        key < KEY_COUNT,
    ensures
        final(emulator).wf(),
        final(emulator)@ == (MachineModel {
            keys: old(emulator)@.keys.update(key as int, false),
            ..old(emulator)@
        }),
{
    emulator.keys.set(key as usize, false);
}

} // verus!
