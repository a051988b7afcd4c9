use vstd::prelude::*;
use crate::display::{draw, pixels_ok};

verus! {

/// Bytes of addressable memory.
pub const MEMORY_SIZE: usize = 4096;

/// Number of general-purpose registers; the last one doubles as the flag register.
pub const REGISTER_COUNT: usize = 16;

/// Depth of the return-address stack.
pub const STACK_DEPTH: usize = 16;

/// Index of the flag register.
pub const FLAG: usize = 15;

/// Address at which programs are loaded and execution starts after a reset.
pub const PROGRAM_START: u16 = 0x200;

/// Bytes per font glyph.
pub const GLYPH_SIZE: u16 = 5;

/// A fault that stops an instruction from executing. The machine is left as it was.
#[derive(Clone, Copy, Debug, PartialEq, Eq, Structural)]
pub enum Fault {
    /// A return with an empty call stack.
    StackUnderflow,
    /// A call with a full call stack.
    StackOverflow,
    /// A fetch or a memory access past the end of memory.
    AddressOutOfRange,
    /// A key instruction naming a key above `0xF`.
    InvalidKey,
}

/// A decoded instruction. Register operands are nibbles (`0..16`), `nnn` is a 12-bit address,
/// `kk` a byte and `n` a sprite height.
#[derive(Clone, Copy, Debug, PartialEq, Eq, Structural)]
pub enum Instruction {
    ClearScreen,
    Return,
    Jump(u16),
    Call(u16),
    SkipEqImm(u8, u8),
    SkipNeImm(u8, u8),
    SkipEqReg(u8, u8),
    LoadImm(u8, u8),
    AddImm(u8, u8),
    Move(u8, u8),
    Or(u8, u8),
    And(u8, u8),
    Xor(u8, u8),
    AddReg(u8, u8),
    Sub(u8, u8),
    ShiftRight(u8),
    SubN(u8, u8),
    ShiftLeft(u8),
    SkipNeReg(u8, u8),
    SetIndex(u16),
    JumpOffset(u16),
    RandomAnd(u8, u8),
    Draw(u8, u8, u8),
    SkipKeyDown(u8),
    SkipKeyUp(u8),
    GetDelay(u8),
    WaitKey(u8),
    SetDelay(u8),
    SetSound(u8),
    AddIndex(u8),
    FontGlyph(u8),
    StoreBcd(u8),
    StoreRegs(u8),
    LoadRegs(u8),
    /// Any word that matches no instruction; it executes as a no-op.
    Unknown,
}

/// The whole state of the machine, as values.
pub struct MachineState {
    pub memory: Seq<u8>,
    pub v: Seq<u8>,
    pub i: u16,
    pub pc: u16,
    pub stack: Seq<u16>,
    pub sp: u8,
    pub gfx: Seq<u8>,
    pub keys: Seq<bool>,
    pub draw_flag: bool,
    pub dt: u8,
    pub st: u8,
    pub random_byte: u8,
}

/// Sizes are fixed and the stack pointer is within the stack.
pub open spec fn state_ok(s: MachineState) -> bool {
    &&& s.memory.len() == MEMORY_SIZE
    &&& s.v.len() == REGISTER_COUNT
    &&& s.stack.len() == STACK_DEPTH
    &&& s.sp <= STACK_DEPTH
    &&& pixels_ok(s.gfx)
    &&& s.keys.len() == 16
}

/// Sixteen-bit addition with wraparound.
pub open spec fn add16(a: int, b: int) -> u16 {
    ((a + b) % 0x10000) as u16
}

/// Sixteen-bit subtraction with wraparound.
pub open spec fn sub16(a: int, b: int) -> u16 {
    ((a - b + 0x10000) % 0x10000) as u16
}

/// The built-in glyphs of the hexadecimal digits `0` to `F`, five bytes each.
pub open spec fn font_glyphs() -> Seq<u8> {
    seq![
        0xF0u8, 0x90, 0x90, 0x90, 0xF0,
        0x20, 0x60, 0x20, 0x20, 0x70,
        0xF0, 0x10, 0xF0, 0x80, 0xF0,
        0xF0, 0x10, 0xF0, 0x10, 0xF0,
        0x90, 0x90, 0xF0, 0x10, 0x10,
        0xF0, 0x80, 0xF0, 0x10, 0xF0,
        0xF0, 0x80, 0xF0, 0x90, 0xF0,
        0xF0, 0x10, 0x20, 0x40, 0x40,
        0xF0, 0x90, 0xF0, 0x90, 0xF0,
        0xF0, 0x90, 0xF0, 0x10, 0xF0,
        0xF0, 0x90, 0xF0, 0x90, 0x90,
        0xE0, 0x90, 0xE0, 0x90, 0xE0,
        0xF0, 0x80, 0x80, 0x80, 0xF0,
        0xE0, 0x90, 0x90, 0x90, 0xE0,
        0xF0, 0x80, 0xF0, 0x80, 0xF0,
        0xF0, 0x80, 0xF0, 0x80, 0x80,
    ]
}

/// Memory after a reset: the font at address 0, zero elsewhere.
pub open spec fn boot_memory() -> Seq<u8> {
    Seq::new(MEMORY_SIZE as nat, |a: int| if a < 80 { font_glyphs()[a] } else { 0u8 })
}

/// A screen with every pixel off.
pub open spec fn blank_screen() -> Seq<u8> {
    Seq::new(2048, |k: int| 0u8)
}

/// The state after a reset: memory, registers, index, stack and screen back to boot values and
/// `pc` at the program start; keys, timers and the random byte are kept.
pub open spec fn reset_state(s: MachineState) -> MachineState {
    MachineState {
        memory: boot_memory(),
        v: Seq::new(REGISTER_COUNT as nat, |r: int| 0u8),
        i: 0,
        pc: PROGRAM_START,
        stack: Seq::new(STACK_DEPTH as nat, |k: int| 0u16),
        sp: 0,
        gfx: blank_screen(),
        draw_flag: false,
        ..s
    }
}

/// Loading `program` at the program start: it must fit between there and the end of memory;
/// the rest of memory and of the state is kept.
pub open spec fn loaded(s: MachineState, program: Seq<u8>) -> Result<MachineState, Fault> {
    if program.len() > MEMORY_SIZE - PROGRAM_START {
        Err(Fault::AddressOutOfRange)
    } else {
        Ok(MachineState {
            memory: Seq::new(s.memory.len(), |a: int|
                if PROGRAM_START <= a < PROGRAM_START + program.len() { program[a - PROGRAM_START] } else { s.memory[a] }),
            ..s
        })
    }
}

/// The instruction that a 16-bit word encodes.
pub open spec fn instruction_of(op: u16) -> Instruction {
    let a = op >> 12u16;
    let x = ((op >> 8u16) & 0xFu16) as u8;
    let y = ((op >> 4u16) & 0xFu16) as u8;
    let n = (op & 0xFu16) as u8;
    let kk = (op & 0xFFu16) as u8;
    let nnn = op & 0xFFFu16;
    if op == 0x00E0 {
        Instruction::ClearScreen
    } else if op == 0x00EE {
        Instruction::Return
    } else if a == 0x1 {
        Instruction::Jump(nnn)
    } else if a == 0x2 {
        Instruction::Call(nnn)
    } else if a == 0x3 {
        Instruction::SkipEqImm(x, kk)
    } else if a == 0x4 {
        Instruction::SkipNeImm(x, kk)
    } else if a == 0x5 && n == 0 {
        Instruction::SkipEqReg(x, y)
    } else if a == 0x6 {
        Instruction::LoadImm(x, kk)
    } else if a == 0x7 {
        Instruction::AddImm(x, kk)
    } else if a == 0x8 && n == 0x0 {
        Instruction::Move(x, y)
    } else if a == 0x8 && n == 0x1 {
        Instruction::Or(x, y)
    } else if a == 0x8 && n == 0x2 {
        Instruction::And(x, y)
    } else if a == 0x8 && n == 0x3 {
        Instruction::Xor(x, y)
    } else if a == 0x8 && n == 0x4 {
        Instruction::AddReg(x, y)
    } else if a == 0x8 && n == 0x5 {
        Instruction::Sub(x, y)
    } else if a == 0x8 && n == 0x6 {
        Instruction::ShiftRight(x)
    } else if a == 0x8 && n == 0x7 {
        Instruction::SubN(x, y)
    } else if a == 0x8 && n == 0xE {
        Instruction::ShiftLeft(x)
    } else if a == 0x9 && n == 0 {
        Instruction::SkipNeReg(x, y)
    } else if a == 0xA {
        Instruction::SetIndex(nnn)
    } else if a == 0xB {
        Instruction::JumpOffset(nnn)
    } else if a == 0xC {
        Instruction::RandomAnd(x, kk)
    } else if a == 0xD {
        Instruction::Draw(x, y, n)
    } else if a == 0xE && kk == 0x9E {
        Instruction::SkipKeyDown(x)
    } else if a == 0xE && kk == 0xA1 {
        Instruction::SkipKeyUp(x)
    } else if a == 0xF && kk == 0x07 {
        Instruction::GetDelay(x)
    } else if a == 0xF && kk == 0x0A {
        Instruction::WaitKey(x)
    } else if a == 0xF && kk == 0x15 {
        Instruction::SetDelay(x)
    } else if a == 0xF && kk == 0x18 {
        Instruction::SetSound(x)
    } else if a == 0xF && kk == 0x1E {
        Instruction::AddIndex(x)
    } else if a == 0xF && kk == 0x29 {
        Instruction::FontGlyph(x)
    } else if a == 0xF && kk == 0x33 {
        Instruction::StoreBcd(x)
    } else if a == 0xF && kk == 0x55 {
        Instruction::StoreRegs(x)
    } else if a == 0xF && kk == 0x65 {
        Instruction::LoadRegs(x)
    } else {
        Instruction::Unknown
    }
}

impl Instruction {
    /// Operands are within their fields: registers and heights below 16, addresses below 4096.
    pub open spec fn wf(self) -> bool {
        match self {
            Instruction::Jump(nnn) | Instruction::Call(nnn) | Instruction::SetIndex(nnn)
            | Instruction::JumpOffset(nnn) => nnn < 0x1000,
            Instruction::SkipEqImm(x, _) | Instruction::SkipNeImm(x, _) | Instruction::LoadImm(x, _)
            | Instruction::AddImm(x, _) | Instruction::RandomAnd(x, _) | Instruction::ShiftRight(x)
            | Instruction::ShiftLeft(x) | Instruction::SkipKeyDown(x) | Instruction::SkipKeyUp(x)
            | Instruction::GetDelay(x) | Instruction::WaitKey(x) | Instruction::SetDelay(x)
            | Instruction::SetSound(x) | Instruction::AddIndex(x) | Instruction::FontGlyph(x)
            | Instruction::StoreBcd(x) | Instruction::StoreRegs(x) | Instruction::LoadRegs(x) => x < 16,
            Instruction::SkipEqReg(x, y) | Instruction::Move(x, y) | Instruction::Or(x, y)
            | Instruction::And(x, y) | Instruction::Xor(x, y) | Instruction::AddReg(x, y)
            | Instruction::Sub(x, y) | Instruction::SubN(x, y) | Instruction::SkipNeReg(x, y) => x < 16 && y < 16,
            Instruction::Draw(x, y, n) => x < 16 && y < 16 && n < 16,
            _ => true,
        }
    }
}

/// The operand fields of an instruction word fit their widths.
proof fn lemma_fields(op: u16)
    ensures
        (op >> 8u16) & 0xFu16 < 16,
        (op >> 4u16) & 0xFu16 < 16,
        op & 0xFu16 < 16,
        op & 0xFFFu16 < 0x1000,
        op & 0xFFu16 < 0x100,
{
    assert((op >> 8u16) & 0xFu16 < 16 && (op >> 4u16) & 0xFu16 < 16 && op & 0xFu16 < 16
        && op & 0xFFFu16 < 0x1000 && op & 0xFFu16 < 0x100) by (bit_vector);
}

/// Decodes a 16-bit instruction word.
pub fn decode(op: u16) -> (r: Instruction)
    ensures
        r == instruction_of(op),
        r.wf(),
{
    proof {
        lemma_fields(op);
    }
    let a = op >> 12u16;
    let x = ((op >> 8u16) & 0xFu16) as u8;
    let y = ((op >> 4u16) & 0xFu16) as u8;
    let n = (op & 0xFu16) as u8;
    let kk = (op & 0xFFu16) as u8;
    let nnn = op & 0xFFFu16;
    if op == 0x00E0 {
        Instruction::ClearScreen
    } else if op == 0x00EE {
        Instruction::Return
    } else if a == 0x1 {
        Instruction::Jump(nnn)
    } else if a == 0x2 {
        Instruction::Call(nnn)
    } else if a == 0x3 {
        Instruction::SkipEqImm(x, kk)
    } else if a == 0x4 {
        Instruction::SkipNeImm(x, kk)
    } else if a == 0x5 && n == 0 {
        Instruction::SkipEqReg(x, y)
    } else if a == 0x6 {
        Instruction::LoadImm(x, kk)
    } else if a == 0x7 {
        Instruction::AddImm(x, kk)
    } else if a == 0x8 && n == 0x0 {
        Instruction::Move(x, y)
    } else if a == 0x8 && n == 0x1 {
        Instruction::Or(x, y)
    } else if a == 0x8 && n == 0x2 {
        Instruction::And(x, y)
    } else if a == 0x8 && n == 0x3 {
        Instruction::Xor(x, y)
    } else if a == 0x8 && n == 0x4 {
        Instruction::AddReg(x, y)
    } else if a == 0x8 && n == 0x5 {
        Instruction::Sub(x, y)
    } else if a == 0x8 && n == 0x6 {
        Instruction::ShiftRight(x)
    } else if a == 0x8 && n == 0x7 {
        Instruction::SubN(x, y)
    } else if a == 0x8 && n == 0xE {
        Instruction::ShiftLeft(x)
    } else if a == 0x9 && n == 0 {
        Instruction::SkipNeReg(x, y)
    } else if a == 0xA {
        Instruction::SetIndex(nnn)
    } else if a == 0xB {
        Instruction::JumpOffset(nnn)
    } else if a == 0xC {
        Instruction::RandomAnd(x, kk)
    } else if a == 0xD {
        Instruction::Draw(x, y, n)
    } else if a == 0xE && kk == 0x9E {
        Instruction::SkipKeyDown(x)
    } else if a == 0xE && kk == 0xA1 {
        Instruction::SkipKeyUp(x)
    } else if a == 0xF && kk == 0x07 {
        Instruction::GetDelay(x)
    } else if a == 0xF && kk == 0x0A {
        Instruction::WaitKey(x)
    } else if a == 0xF && kk == 0x15 {
        Instruction::SetDelay(x)
    } else if a == 0xF && kk == 0x18 {
        Instruction::SetSound(x)
    } else if a == 0xF && kk == 0x1E {
        Instruction::AddIndex(x)
    } else if a == 0xF && kk == 0x29 {
        Instruction::FontGlyph(x)
    } else if a == 0xF && kk == 0x33 {
        Instruction::StoreBcd(x)
    } else if a == 0xF && kk == 0x55 {
        Instruction::StoreRegs(x)
    } else if a == 0xF && kk == 0x65 {
        Instruction::LoadRegs(x)
    } else {
        Instruction::Unknown
    }
}

/// Whether a step that returned `r` and went from `pre` to `post` did what `expected` says:
/// on `Ok`, `post` is the expected state; on a fault, the same fault, with the state unchanged.
pub open spec fn follows(
    pre: MachineState,
    post: MachineState,
    r: Result<(), Fault>,
    expected: Result<MachineState, Fault>,
) -> bool {
    match expected {
        Ok(t) => r is Ok && post == t,
        Err(e) => r == Err::<(), Fault>(e) && post == pre,
    }
}

/// `s` with register `x` set to `val`.
pub open spec fn with_reg(s: MachineState, x: int, val: u8) -> MachineState {
    MachineState { v: s.v.update(x, val), ..s }
}

/// `s` with the next instruction skipped when `c` holds.
pub open spec fn skip_if(s: MachineState, c: bool) -> MachineState {
    if c {
        MachineState { pc: add16(s.pc as int, 2), ..s }
    } else {
        s
    }
}

/// The lowest-indexed key at or above `k` that is pressed.
pub open spec fn lowest_pressed(keys: Seq<bool>, k: int) -> Option<u8>
    decreases 16 - k,
{
    if k >= 16 || k < 0 {
        None
    } else if keys[k] {
        Some(k as u8)
    } else {
        lowest_pressed(keys, k + 1)
    }
}

/// What an instruction does to the machine state `t`, whose `pc` already points past it.
pub open spec fn effect(t: MachineState, ins: Instruction) -> Result<MachineState, Fault> {
    match ins {
        Instruction::ClearScreen => Ok(MachineState { gfx: blank_screen(), draw_flag: true, ..t }),
        Instruction::Return => if t.sp == 0 {
            Err(Fault::StackUnderflow)
        } else {
            Ok(MachineState { sp: (t.sp - 1) as u8, pc: t.stack[t.sp - 1], ..t })
        },
        Instruction::Jump(nnn) => Ok(MachineState { pc: nnn, ..t }),
        Instruction::Call(nnn) => if t.sp >= STACK_DEPTH {
            Err(Fault::StackOverflow)
        } else {
            Ok(MachineState { stack: t.stack.update(t.sp as int, t.pc), sp: (t.sp + 1) as u8, pc: nnn, ..t })
        },
        Instruction::SkipEqImm(x, kk) => Ok(skip_if(t, t.v[x as int] == kk)),
        Instruction::SkipNeImm(x, kk) => Ok(skip_if(t, t.v[x as int] != kk)),
        Instruction::SkipEqReg(x, y) => Ok(skip_if(t, t.v[x as int] == t.v[y as int])),
        Instruction::LoadImm(x, kk) => Ok(with_reg(t, x as int, kk)),
        Instruction::AddImm(x, kk) => Ok(with_reg(t, x as int, ((t.v[x as int] + kk) % 256) as u8)),
        Instruction::Move(x, y) => Ok(with_reg(t, x as int, t.v[y as int])),
        Instruction::Or(x, y) => Ok(with_reg(t, x as int, t.v[x as int] | t.v[y as int])),
        Instruction::And(x, y) => Ok(with_reg(t, x as int, t.v[x as int] & t.v[y as int])),
        Instruction::Xor(x, y) => Ok(with_reg(t, x as int, t.v[x as int] ^ t.v[y as int])),
        Instruction::AddReg(x, y) => {
            let sum = t.v[x as int] + t.v[y as int];
            Ok(with_reg(with_reg(t, FLAG as int, if sum > 255 { 1 } else { 0 }), x as int, (sum % 256) as u8))
        },
        Instruction::Sub(x, y) => {
            let (a, b) = (t.v[x as int], t.v[y as int]);
            Ok(with_reg(with_reg(t, FLAG as int, if a >= b { 1 } else { 0 }), x as int, ((a - b + 256) % 256) as u8))
        },
        Instruction::ShiftRight(x) => {
            let a = t.v[x as int];
            Ok(with_reg(with_reg(t, FLAG as int, a & 1u8), x as int, a >> 1u8))
        },
        Instruction::SubN(x, y) => {
            let (a, b) = (t.v[x as int], t.v[y as int]);
            Ok(with_reg(with_reg(t, FLAG as int, if b >= a { 1 } else { 0 }), x as int, ((b - a + 256) % 256) as u8))
        },
        Instruction::ShiftLeft(x) => {
            let a = t.v[x as int];
            Ok(with_reg(with_reg(t, FLAG as int, a & 0x80u8), x as int, a << 1u8))
        },
        Instruction::SkipNeReg(x, y) => Ok(skip_if(t, t.v[x as int] != t.v[y as int])),
        Instruction::SetIndex(nnn) => Ok(MachineState { i: nnn, ..t }),
        Instruction::JumpOffset(nnn) => Ok(MachineState { pc: (t.v[0] + nnn) as u16, ..t }),
        Instruction::RandomAnd(x, kk) => Ok(with_reg(t, x as int, t.random_byte & kk)),
        Instruction::Draw(x, y, n) => if t.i + n > MEMORY_SIZE {
            Err(Fault::AddressOutOfRange)
        } else {
            let (g, c) = draw(t.gfx, t.v[x as int] as int, t.v[y as int] as int, t.memory.subrange(t.i as int, t.i + n));
            Ok(with_reg(MachineState { gfx: g, draw_flag: true, ..t }, FLAG as int, if c { 1 } else { 0 }))
        },
        Instruction::SkipKeyDown(x) => if t.v[x as int] >= 16 {
            Err(Fault::InvalidKey)
        } else {
            Ok(skip_if(t, t.keys[t.v[x as int] as int]))
        },
        Instruction::SkipKeyUp(x) => if t.v[x as int] >= 16 {
            Err(Fault::InvalidKey)
        } else {
            Ok(skip_if(t, !t.keys[t.v[x as int] as int]))
        },
        Instruction::GetDelay(x) => Ok(with_reg(t, x as int, t.dt)),
        Instruction::WaitKey(x) => match lowest_pressed(t.keys, 0) {
            Some(k) => Ok(with_reg(t, x as int, k)),
            None => Ok(MachineState { pc: sub16(t.pc as int, 2), ..t }),
        },
        Instruction::SetDelay(x) => Ok(MachineState { dt: t.v[x as int], ..t }),
        Instruction::SetSound(x) => Ok(MachineState { st: t.v[x as int], ..t }),
        Instruction::AddIndex(x) => Ok(MachineState { i: add16(t.i as int, t.v[x as int] as int), ..t }),
        Instruction::FontGlyph(x) => Ok(MachineState { i: (t.v[x as int] * GLYPH_SIZE) as u16, ..t }),
        Instruction::StoreBcd(x) => if t.i + 3 > MEMORY_SIZE {
            Err(Fault::AddressOutOfRange)
        } else {
            let a = t.v[x as int];
            Ok(MachineState {
                memory: t.memory.update(t.i as int, a / 100).update(t.i + 1, (a / 10) % 10).update(t.i + 2, a % 10),
                ..t
            })
        },
        Instruction::StoreRegs(x) => if t.i + x + 1 > MEMORY_SIZE {
            Err(Fault::AddressOutOfRange)
        } else {
            Ok(MachineState {
                memory: Seq::new(t.memory.len(), |a: int| if t.i <= a <= t.i + x { t.v[a - t.i] } else { t.memory[a] }),
                ..t
            })
        },
        Instruction::LoadRegs(x) => if t.i + x + 1 > MEMORY_SIZE {
            Err(Fault::AddressOutOfRange)
        } else {
            Ok(MachineState {
                v: Seq::new(t.v.len(), |r: int| if r <= x { t.memory[t.i + r] } else { t.v[r] }),
                ..t
            })
        },
        Instruction::Unknown => Ok(t),
    }
}

/// `s` with `pc` moved past the current instruction.
pub open spec fn advance(s: MachineState) -> MachineState {
    MachineState { pc: add16(s.pc as int, 2), ..s }
}

/// Executing `ins` from `s`: `pc` moves past it first, then the instruction takes effect.
/// On a fault the machine stays at `s`.
pub open spec fn execute(s: MachineState, ins: Instruction) -> Result<MachineState, Fault> {
    effect(advance(s), ins)
}

/// One tick of both timers: each goes down by one unless it is already zero.
pub open spec fn tick(s: MachineState) -> MachineState {
    MachineState {
        dt: if s.dt > 0 { (s.dt - 1) as u8 } else { 0 },
        st: if s.st > 0 { (s.st - 1) as u8 } else { 0 },
        ..s
    }
}

/// The big-endian word at `pc`.
pub open spec fn opcode_at(s: MachineState) -> u16 {
    (s.memory[s.pc as int] * 256 + s.memory[s.pc + 1]) as u16
}

/// One full cycle: fetch the word at `pc`, execute it, then tick the timers. A fault leaves
/// the machine as it was.
pub open spec fn cycle(s: MachineState) -> Result<MachineState, Fault> {
    if s.pc + 1 >= MEMORY_SIZE {
        Err(Fault::AddressOutOfRange)
    } else {
        match execute(s, instruction_of(opcode_at(s))) {
            Ok(t) => Ok(tick(t)),
            Err(e) => Err(e),
        }
    }
}

} // verus!
