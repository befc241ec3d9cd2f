use vstd::prelude::*;

verus! {

/// The four 4-bit fields of a word, most significant first.
pub open spec fn nibbles(word: u16) -> (u16, u16, u16, u16) {
    (
        (word / 4096) as u16,
        ((word / 256) % 16) as u16,
        ((word / 16) % 16) as u16,
        (word % 16) as u16,
    )
}

/// Each field of a split word holds four bits.
pub open spec fn nibbles_in_range(op: (u16, u16, u16, u16)) -> bool {
    op.0 < 16 && op.1 < 16 && op.2 < 16 && op.3 < 16
}

/// Splits an instruction word into its four nibbles.
pub fn parse_op_code(op_code: u16) -> (r: (u16, u16, u16, u16))
    ensures
        r == nibbles(op_code),
        nibbles_in_range(r),
{
    let first = (op_code & 0xF000) >> 12u16;
    let second = (op_code & 0x0F00) >> 8u16;
    let third = (op_code & 0x00F0) >> 4u16;
    let fourth = op_code & 0x000F;
    assert(first == op_code / 4096) by (bit_vector)
        requires
            first == (op_code & 0xF000) >> 12u16,
    ;
    assert(second == (op_code / 256) % 16) by (bit_vector)
        requires
            second == (op_code & 0x0F00) >> 8u16,
    ;
    assert(third == (op_code / 16) % 16) by (bit_vector)
        requires
            third == (op_code & 0x00F0) >> 4u16,
    ;
    assert(fourth == op_code % 16) by (bit_vector)
        requires
            fourth == op_code & 0x000F,
    ;
    (first, second, third, fourth)
}

/// The 12-bit address held by the last three nibbles.
pub fn get_nnn(op_code: (u16, u16, u16, u16)) -> (r: u16)
    requires
        op_code.1 < 16,
        op_code.2 < 16,
        op_code.3 < 16,
    ensures
        r == op_code.1 * 256 + op_code.2 * 16 + op_code.3,
        r < 4096,
{
    let (_, first, second, third) = op_code;
    assert((first << 8u16) | (second << 4u16) | third == first * 256 + second * 16 + third)
        by (bit_vector)
        requires
            first < 16,
            second < 16,
            third < 16,
    ;
    (first << 8u16) | (second << 4u16) | third
}

/// The register named by the second nibble.
pub fn get_x(op_code: (u16, u16, u16, u16)) -> (r: u16)
    ensures
        r == op_code.1,
{
    let (_, x, _, _) = op_code;
    x
}

/// The byte held by the last two nibbles.
pub fn get_kk(op_code: (u16, u16, u16, u16)) -> (r: u16)
    requires
        op_code.2 < 16,
        op_code.3 < 16,
    ensures
        r == op_code.2 * 16 + op_code.3,
        r < 256,
{
    let (_, _, first, second) = op_code;
    assert((first << 4u16) | second == first * 16 + second) by (bit_vector)
        requires
            first < 16,
            second < 16,
    ;
    (first << 4u16) | second
}

/// The register named by the third nibble.
pub fn get_y(op_code: (u16, u16, u16, u16)) -> (r: u16)
    ensures
        r == op_code.2,
{
    let (_, _, y, _) = op_code;
    y
}

/// A decoded instruction. `x` and `y` name registers, `kk` is an immediate
/// byte, `nnn` a 12-bit address and `n` a 4-bit count.
#[derive(Debug, Clone, Copy, PartialEq, Eq, Structural)]
pub enum Instruction {
    /// `0nnn`: machine-code call, ignored.
    Sys { nnn: u16 },
    /// `00E0`: clear the screen.
    Cls,
    /// `00EE`: return from a subroutine.
    Ret,
    /// `1nnn`: jump to `nnn`.
    Jump { nnn: u16 },
    /// `2nnn`: call the subroutine at `nnn`.
    Call { nnn: u16 },
    /// `3xkk`: skip the next instruction if `Vx == kk`.
    SkipEqImm { x: u8, kk: u8 },
    /// `4xkk`: skip the next instruction if `Vx != kk`.
    SkipNeImm { x: u8, kk: u8 },
    /// `5xy0`: skip the next instruction if `Vx == Vy`.
    SkipEqReg { x: u8, y: u8 },
    /// `6xkk`: `Vx = kk`.
    LoadImm { x: u8, kk: u8 },
    /// `7xkk`: `Vx = Vx + kk`, wrapping, flag untouched.
    AddImm { x: u8, kk: u8 },
    /// `8xy0`: `Vx = Vy`.
    Copy { x: u8, y: u8 },
    /// `8xy1`: `Vx = Vx | Vy`.
    Or { x: u8, y: u8 },
    /// `8xy2`: `Vx = Vx & Vy`.
    And { x: u8, y: u8 },
    /// `8xy3`: `Vx = Vx ^ Vy`.
    Xor { x: u8, y: u8 },
    /// `8xy4`: `Vx = Vx + Vy`, flag set on carry.
    AddReg { x: u8, y: u8 },
    /// `8xy5`: `Vx = Vx - Vy`, flag set when nothing is borrowed.
    Sub { x: u8, y: u8 },
    /// `8xy6`: `Vx = Vx >> 1`, flag set to the bit shifted out.
    ShiftRight { x: u8, y: u8 },
    /// `8xy7`: `Vx = Vy - Vx`, flag set when nothing is borrowed.
    SubReversed { x: u8, y: u8 },
    /// `8xyE`: `Vx = Vx << 1`, flag set to the bit shifted out.
    ShiftLeft { x: u8, y: u8 },
    /// `9xy0`: skip the next instruction if `Vx != Vy`.
    SkipNeReg { x: u8, y: u8 },
    /// `Annn`: `I = nnn`.
    LoadIndex { nnn: u16 },
    /// `Bnnn`: jump to `nnn + V0`.
    JumpOffset { nnn: u16 },
    /// `Cxkk`: `Vx = random byte & kk`.
    Random { x: u8, kk: u8 },
    /// `Dxyn`: draw the `n`-byte sprite at `I` at `(Vx, Vy)`.
    Draw { x: u8, y: u8, n: u8 },
    /// `Ex9E`: skip the next instruction if key `Vx` is pressed.
    SkipKeyPressed { x: u8 },
    /// `ExA1`: skip the next instruction if key `Vx` is not pressed.
    SkipKeyNotPressed { x: u8 },
    /// `Fx07`: `Vx = delay timer`.
    LoadDelay { x: u8 },
    /// `Fx0A`: wait for a key press and store the key in `Vx`.
    WaitKey { x: u8 },
    /// `Fx15`: `delay timer = Vx`.
    SetDelay { x: u8 },
    /// `Fx18`: `sound timer = Vx`.
    SetSound { x: u8 },
    /// `Fx1E`: `I = I + Vx`.
    AddIndex { x: u8 },
    /// `Fx29`: `I` = address of the font glyph for the digit `Vx`.
    LoadFont { x: u8 },
    /// `Fx33`: decimal digits of `Vx` at `I`, `I + 1`, `I + 2`.
    StoreBcd { x: u8 },
    /// `Fx55`: registers `V0..=Vx` to memory at `I`.
    StoreRegs { x: u8 },
    /// `Fx65`: memory at `I` to registers `V0..=Vx`.
    LoadRegs { x: u8 },
    /// A word that matches no instruction.
    Unknown { word: u16 },
}

impl Instruction {
    /// Register operands name one of the sixteen registers and counts fit in a nibble.
    pub open spec fn wf(self) -> bool {
        match self {
            Instruction::SkipEqImm { x, .. } | Instruction::SkipNeImm { x, .. }
            | Instruction::LoadImm { x, .. } | Instruction::AddImm { x, .. }
            | Instruction::Random { x, .. } | Instruction::SkipKeyPressed { x }
            | Instruction::SkipKeyNotPressed { x } | Instruction::LoadDelay { x }
            | Instruction::WaitKey { x } | Instruction::SetDelay { x }
            | Instruction::SetSound { x } | Instruction::AddIndex { x }
            | Instruction::LoadFont { x } | Instruction::StoreBcd { x }
            | Instruction::StoreRegs { x } | Instruction::LoadRegs { x } => x < 16,
            Instruction::SkipEqReg { x, y } | Instruction::SkipNeReg { x, y }
            | Instruction::Copy { x, y } | Instruction::Or { x, y } | Instruction::And { x, y }
            | Instruction::Xor { x, y } | Instruction::AddReg { x, y } | Instruction::Sub { x, y }
            | Instruction::ShiftRight { x, y } | Instruction::SubReversed { x, y }
            | Instruction::ShiftLeft { x, y } => x < 16 && y < 16,
            Instruction::Draw { x, y, n } => x < 16 && y < 16 && n < 16,
            Instruction::Sys { nnn } | Instruction::Jump { nnn } | Instruction::Call { nnn }
            | Instruction::LoadIndex { nnn } | Instruction::JumpOffset { nnn } => nnn < 4096,
            _ => true,
        }
    }
}

/// The instruction that a word encodes, from its nibbles `a b c d`.
pub open spec fn decode_nibbles(word: u16, a: u16, b: u16, c: u16, d: u16) -> Instruction {
    let x = b as u8;
    let y = c as u8;
    let kk = (c * 16 + d) as u8;
    let nnn = (b * 256 + c * 16 + d) as u16;
    if a == 0 {
        if b == 0 && c == 0xE && d == 0 {
            Instruction::Cls
        } else if b == 0 && c == 0xE && d == 0xE {
            Instruction::Ret
        } else {
            Instruction::Sys { nnn }
        }
    } else if a == 1 {
        Instruction::Jump { nnn }
    } else if a == 2 {
        Instruction::Call { nnn }
    } else if a == 3 {
        Instruction::SkipEqImm { x, kk }
    } else if a == 4 {
        Instruction::SkipNeImm { x, kk }
    } else if a == 5 && d == 0 {
        Instruction::SkipEqReg { x, y }
    } else if a == 6 {
        Instruction::LoadImm { x, kk }
    } else if a == 7 {
        Instruction::AddImm { x, kk }
    } else if a == 8 && d == 0 {
        Instruction::Copy { x, y }
    } else if a == 8 && d == 1 {
        Instruction::Or { x, y }
    } else if a == 8 && d == 2 {
        Instruction::And { x, y }
    } else if a == 8 && d == 3 {
        Instruction::Xor { x, y }
    } else if a == 8 && d == 4 {
        Instruction::AddReg { x, y }
    } else if a == 8 && d == 5 {
        Instruction::Sub { x, y }
    } else if a == 8 && d == 6 {
        Instruction::ShiftRight { x, y }
    } else if a == 8 && d == 7 {
        Instruction::SubReversed { x, y }
    } else if a == 8 && d == 0xE {
        Instruction::ShiftLeft { x, y }
    } else if a == 9 && d == 0 {
        Instruction::SkipNeReg { x, y }
    } else if a == 0xA {
        Instruction::LoadIndex { nnn }
    } else if a == 0xB {
        Instruction::JumpOffset { nnn }
    } else if a == 0xC {
        Instruction::Random { x, kk }
    } else if a == 0xD {
        Instruction::Draw { x, y, n: d as u8 }
    } else if a == 0xE && c == 9 && d == 0xE {
        Instruction::SkipKeyPressed { x }
    } else if a == 0xE && c == 0xA && d == 1 {
        Instruction::SkipKeyNotPressed { x }
    } else if a == 0xF && c == 0 && d == 7 {
        Instruction::LoadDelay { x }
    } else if a == 0xF && c == 0 && d == 0xA {
        Instruction::WaitKey { x }
    } else if a == 0xF && c == 1 && d == 5 {
        Instruction::SetDelay { x }
    } else if a == 0xF && c == 1 && d == 8 {
        Instruction::SetSound { x }
    } else if a == 0xF && c == 1 && d == 0xE {
        Instruction::AddIndex { x }
    } else if a == 0xF && c == 2 && d == 9 {
        Instruction::LoadFont { x }
    } else if a == 0xF && c == 3 && d == 3 {
        Instruction::StoreBcd { x }
    } else if a == 0xF && c == 5 && d == 5 {
        Instruction::StoreRegs { x }
    } else if a == 0xF && c == 6 && d == 5 {
        Instruction::LoadRegs { x }
    } else {
        Instruction::Unknown { word }
    }
}

/// The instruction that a word encodes.
pub open spec fn decode_spec(word: u16) -> Instruction {
    let (a, b, c, d) = nibbles(word);
    decode_nibbles(word, a, b, c, d)
}

/// Decodes an instruction word. Total: a word that matches no instruction
/// becomes `Instruction::Unknown`, for the executor to refuse.
pub fn decode(word: u16) -> (r: Instruction)
    ensures
        r == decode_spec(word),
        r.wf(),
{
    let op = parse_op_code(word);
    let (a, b, c, d) = op;
    let x = get_x(op) as u8;
    let y = get_y(op) as u8;
    let kk = get_kk(op) as u8;
    let nnn = get_nnn(op);
    if a == 0 {
        if b == 0 && c == 0xE && d == 0 {
            Instruction::Cls
        } else if b == 0 && c == 0xE && d == 0xE {
            Instruction::Ret
        } else {
            Instruction::Sys { nnn }
        }
    } else if a == 1 {
        Instruction::Jump { nnn }
    } else if a == 2 {
        Instruction::Call { nnn }
    } else if a == 3 {
        Instruction::SkipEqImm { x, kk }
    } else if a == 4 {
        Instruction::SkipNeImm { x, kk }
    } else if a == 5 && d == 0 {
        Instruction::SkipEqReg { x, y }
    } else if a == 6 {
        Instruction::LoadImm { x, kk }
    } else if a == 7 {
        Instruction::AddImm { x, kk }
    } else if a == 8 && d == 0 {
        Instruction::Copy { x, y }
    } else if a == 8 && d == 1 {
        Instruction::Or { x, y }
    } else if a == 8 && d == 2 {
        Instruction::And { x, y }
    } else if a == 8 && d == 3 {
        Instruction::Xor { x, y }
    } else if a == 8 && d == 4 {
        Instruction::AddReg { x, y }
    } else if a == 8 && d == 5 {
        Instruction::Sub { x, y }
    } else if a == 8 && d == 6 {
        Instruction::ShiftRight { x, y }
    } else if a == 8 && d == 7 {
        Instruction::SubReversed { x, y }
    } else if a == 8 && d == 0xE {
        Instruction::ShiftLeft { x, y }
    } else if a == 9 && d == 0 {
        Instruction::SkipNeReg { x, y }
    } else if a == 0xA {
        Instruction::LoadIndex { nnn }
    } else if a == 0xB {
        Instruction::JumpOffset { nnn }
    } else if a == 0xC {
        Instruction::Random { x, kk }
    } else if a == 0xD {
        Instruction::Draw { x, y, n: d as u8 }
    } else if a == 0xE && c == 9 && d == 0xE {
        Instruction::SkipKeyPressed { x }
    } else if a == 0xE && c == 0xA && d == 1 {
        Instruction::SkipKeyNotPressed { x }
    } else if a == 0xF && c == 0 && d == 7 {
        Instruction::LoadDelay { x }
    } else if a == 0xF && c == 0 && d == 0xA {
        Instruction::WaitKey { x }
    } else if a == 0xF && c == 1 && d == 5 {
        Instruction::SetDelay { x }
    } else if a == 0xF && c == 1 && d == 8 {
        Instruction::SetSound { x }
    } else if a == 0xF && c == 1 && d == 0xE {
        Instruction::AddIndex { x }
    } else if a == 0xF && c == 2 && d == 9 {
        Instruction::LoadFont { x }
    } else if a == 0xF && c == 3 && d == 3 {
        Instruction::StoreBcd { x }
    } else if a == 0xF && c == 5 && d == 5 {
        Instruction::StoreRegs { x }
    } else if a == 0xF && c == 6 && d == 5 {
        Instruction::LoadRegs { x }
    } else {
        Instruction::Unknown { word }
    }
}

} // verus!
