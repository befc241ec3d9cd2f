use vstd::prelude::*;

verus! {

/// Number of general registers, `V0` to `VF`.
pub const REGISTER_COUNT: usize = 16;

/// Index of the flag register `VF`.
pub const FLAG_REGISTER: usize = 15;

/// Capacity of the call stack.
pub const STACK_SIZE: usize = 16;

/// Bytes of addressable memory.
pub const RAM_SIZE: usize = 4096;

/// Address at which programs are loaded and execution starts.
pub const INITIAL_ADDRESS: u16 = 0x200;

/// Width of the pixel buffer.
pub const SCREEN_WIDTH: usize = 64;

/// Height of the pixel buffer.
pub const SCREEN_HEIGHT: usize = 32;

/// Number of cells of the pixel buffer.
pub const SCREEN_SIZE: usize = 2048;

/// Number of keys of the keypad.
pub const KEY_COUNT: usize = 16;

/// Why the machine stopped.
#[derive(Debug, Clone, Copy, PartialEq, Eq, Structural)]
pub enum ExecError {
    /// The word matches no instruction.
    UnknownOpcode(u16),
    /// A call with all stack slots occupied.
    StackOverflow,
    /// A return with an empty stack.
    StackUnderflow,
    /// A memory access outside `[0, RAM_SIZE)`.
    AddressOutOfRange,
    /// A program image that does not fit in memory above `INITIAL_ADDRESS`.
    ProgramImageTooLarge,
    /// The operating system could not supply the random byte that `Cxkk` needs.
    RandomUnavailable,
}

/// The complete state of the machine.
///
/// Register `VF` is `v_registers[15]`: the flag written by arithmetic,
/// shifts and drawing lands in the same cell that instructions address as
/// register 15. `pixels` is row-major, cell `y * 64 + x`.
pub struct Emulator {
    pub v_registers: Vec<u8>,
    pub i_register: u16,
    pub program_counter: u16,
    pub stack_pointer: u8,
    pub stack: Vec<u16>,
    pub delay_timer: u8,
    pub sound_timer: u8,
    pub ram: Vec<u8>,
    pub pixels: Vec<bool>,
    pub keys: Vec<bool>,
    /// `Some(x)` while the machine waits for a key press to store in `Vx`.
    pub awaiting_key: Option<u8>,
}

/// The mathematical value of an [`Emulator`].
pub struct MachineModel {
    pub v: Seq<u8>,
    pub i: u16,
    pub pc: u16,
    pub sp: u8,
    pub stack: Seq<u16>,
    pub delay: u8,
    pub sound: u8,
    pub ram: Seq<u8>,
    pub pixels: Seq<bool>,
    pub keys: Seq<bool>,
    pub awaiting_key: Option<u8>,
}

impl MachineModel {
    /// Sizes of every part of the machine, and the stack pointer within capacity.
    pub open spec fn wf(self) -> bool {
        &&& self.v.len() == REGISTER_COUNT
        &&& self.stack.len() == STACK_SIZE
        &&& self.sp <= STACK_SIZE
        &&& self.ram.len() == RAM_SIZE
        &&& self.pixels.len() == SCREEN_SIZE
        &&& self.keys.len() == KEY_COUNT
        &&& (self.awaiting_key matches Some(x) ==> x < 16)
    }

    /// The state after one 60 Hz timer tick.
    pub open spec fn ticked(self) -> MachineModel {
        MachineModel {
            delay: if self.delay > 0 { (self.delay - 1) as u8 } else { 0 },
            sound: if self.sound > 0 { (self.sound - 1) as u8 } else { 0 },
            ..self
        }
    }
}

impl View for Emulator {
    type V = MachineModel;

    open spec fn view(&self) -> MachineModel {
        MachineModel {
            v: self.v_registers@,
            i: self.i_register,
            pc: self.program_counter,
            sp: self.stack_pointer,
            stack: self.stack@,
            delay: self.delay_timer,
            sound: self.sound_timer,
            ram: self.ram@,
            pixels: self.pixels@,
            keys: self.keys@,
            awaiting_key: self.awaiting_key,
        }
    }
}

/// The state of a machine just started: everything zero, the program counter
/// at `INITIAL_ADDRESS`.
pub open spec fn initial_model() -> MachineModel {
    MachineModel {
        v: Seq::new(16, |k: int| 0u8),
        i: 0,
        pc: INITIAL_ADDRESS,
        sp: 0,
        stack: Seq::new(16, |k: int| 0u16),
        delay: 0,
        sound: 0,
        ram: Seq::new(4096, |k: int| 0u8),
        pixels: Seq::new(2048, |k: int| false),
        keys: Seq::new(16, |k: int| false),
        awaiting_key: None,
    }
}

/// Memory after copying `data` to `INITIAL_ADDRESS`.
pub open spec fn loaded_ram(ram: Seq<u8>, data: Seq<u8>) -> Seq<u8> {
    Seq::new(
        ram.len(),
        |a: int|
            if INITIAL_ADDRESS <= a < INITIAL_ADDRESS + data.len() {
                data[a - INITIAL_ADDRESS]
            } else {
                ram[a]
            },
    )
}

/// The instruction word at `pc`, high byte first.
pub open spec fn word_at(ram: Seq<u8>, pc: int) -> u16 {
    (ram[pc] * 256 + ram[pc + 1]) as u16
}

impl Emulator {
    pub open spec fn wf(&self) -> bool {
        self@.wf()
    }

    /// A machine with every register, timer, stack slot, memory byte, pixel
    /// and key zero, ready to run from `INITIAL_ADDRESS`.
    pub fn new() -> (r: Emulator)
        ensures
            r@ == initial_model(),
            r.wf(),
    {
        let r = Emulator {
            v_registers: vec![0u8; REGISTER_COUNT],
            i_register: 0,
            program_counter: INITIAL_ADDRESS,
            stack_pointer: 0,
            stack: vec![0u16; STACK_SIZE],
            delay_timer: 0,
            sound_timer: 0,
            ram: vec![0u8; RAM_SIZE],
            pixels: vec![false; SCREEN_SIZE],
            keys: vec![false; KEY_COUNT],
            awaiting_key: None,
        };
        assert(r.v_registers@ =~= initial_model().v);
        assert(r.stack@ =~= initial_model().stack);
        assert(r.ram@ =~= initial_model().ram);
        assert(r.pixels@ =~= initial_model().pixels);
        assert(r.keys@ =~= initial_model().keys);
        r
    }
}

/// Copies a program image into memory at `INITIAL_ADDRESS`; an image that
/// would reach past the end of memory is refused and nothing is written.
pub fn load_rom_to_memory(emulator: &mut Emulator, data: &[u8]) -> (r: Result<(), ExecError>)
    requires
        old(emulator).wf(),
    ensures
        final(emulator).wf(),
        INITIAL_ADDRESS + data@.len() <= RAM_SIZE ==> r is Ok && final(emulator)@ == (
        MachineModel { ram: loaded_ram(old(emulator)@.ram, data@), ..old(emulator)@ }),
        INITIAL_ADDRESS + data@.len() > RAM_SIZE ==> r == Err::<(), ExecError>(
            ExecError::ProgramImageTooLarge,
        ) && final(emulator)@ == old(emulator)@,
{
    if data.len() > RAM_SIZE - INITIAL_ADDRESS as usize {
        return Err(ExecError::ProgramImageTooLarge);
    }
    let start = INITIAL_ADDRESS as usize;
    let mut k: usize = 0;
    while k < data.len()
        invariant
            emulator.wf(),
            start == INITIAL_ADDRESS,
            start + data@.len() <= RAM_SIZE,
            k <= data@.len(),
            emulator@ == (MachineModel { ram: emulator@.ram, ..old(emulator)@ }),
            emulator.ram@ =~= Seq::new(
                RAM_SIZE as nat,
                |a: int|
                    if start <= a < start + k {
                        data@[a - start]
                    } else {
                        old(emulator).ram@[a]
                    },
            ),
        decreases data@.len() - k,
    {
        emulator.ram.set(start + k, data[k]);
        k = k + 1;
    }
    assert(emulator.ram@ =~= loaded_ram(old(emulator)@.ram, data@));
    Ok(())
}

/// Reads the two-byte instruction word at the program counter, high byte first.
pub fn get_op_code(emulator: &Emulator) -> (r: u16)
    requires
        emulator.wf(),
        emulator.program_counter + 1 < RAM_SIZE,
    ensures
        r == word_at(emulator.ram@, emulator.program_counter as int),
{
    let pc = emulator.program_counter as usize;
    let high: u16 = emulator.ram[pc] as u16;
    let low: u16 = emulator.ram[pc + 1] as u16;
    assert((high << 8u16) | low == high * 256 + low) by (bit_vector)
        requires
            high < 256,
            low < 256,
    ;
    (high << 8u16) | low
}

/// Pushes a return address; fails with `StackOverflow` when the stack is full.
pub fn push_to_stack(emulator: &mut Emulator, element: u16) -> (r: Result<(), ExecError>)
    requires
        old(emulator).wf(),
    ensures
        final(emulator).wf(),
        old(emulator).stack_pointer < STACK_SIZE ==> r is Ok && final(emulator)@ == (MachineModel {
            stack: old(emulator)@.stack.update(old(emulator)@.sp as int, element),
            sp: (old(emulator)@.sp + 1) as u8,
            ..old(emulator)@
        }),
        old(emulator).stack_pointer >= STACK_SIZE ==> r == Err::<(), ExecError>(
            ExecError::StackOverflow,
        ) && final(emulator)@ == old(emulator)@,
{
    if emulator.stack_pointer as usize >= STACK_SIZE {
        return Err(ExecError::StackOverflow);
    }
    emulator.stack.set(emulator.stack_pointer as usize, element);
    emulator.stack_pointer = emulator.stack_pointer + 1;
    Ok(())
}

/// Pops the most recent return address, clearing its slot; fails with
/// `StackUnderflow` when the stack is empty.
pub fn pop_from_stack(emulator: &mut Emulator) -> (r: Result<u16, ExecError>)
    requires
        old(emulator).wf(),
    ensures
        final(emulator).wf(),
        old(emulator).stack_pointer > 0 ==> r == Ok::<u16, ExecError>(
            old(emulator)@.stack[old(emulator)@.sp - 1],
        ) && final(emulator)@ == (MachineModel {
            stack: old(emulator)@.stack.update(old(emulator)@.sp - 1, 0),
            sp: (old(emulator)@.sp - 1) as u8,
            ..old(emulator)@
        }),
        old(emulator).stack_pointer == 0 ==> r == Err::<u16, ExecError>(ExecError::StackUnderflow)
            && final(emulator)@ == old(emulator)@,
{
    if emulator.stack_pointer == 0 {
        return Err(ExecError::StackUnderflow);
    }
    emulator.stack_pointer = emulator.stack_pointer - 1;
    let element = emulator.stack[emulator.stack_pointer as usize];
    emulator.stack.set(emulator.stack_pointer as usize, 0);
    Ok(element)
}

/// Decrements each non-zero timer by one: the 60 Hz tick.
pub fn tick_timers(emulator: &mut Emulator)
    requires
        old(emulator).wf(),
    ensures
        final(emulator).wf(),
        final(emulator)@ == old(emulator)@.ticked(),
{
    if emulator.delay_timer > 0 {
        emulator.delay_timer = emulator.delay_timer - 1;
    }
    if emulator.sound_timer > 0 {
        emulator.sound_timer = emulator.sound_timer - 1;
    }
}

/// Whether the audio sink should sound: the sound timer is non-zero.
pub fn sound_active(emulator: &Emulator) -> (r: bool)
    ensures
        r == (emulator.sound_timer > 0),
{
    emulator.sound_timer > 0
}

} // verus!
