use vstd::prelude::*;
use vstd::slice::slice_subrange;
use crate::display::{Display, PIXEL_COUNT};
use crate::keypad::{Keypad, KEY_COUNT};
use crate::machine::{
    Fault, Instruction, MachineState, state_ok, effect, execute, cycle, tick, follows, decode,
    instruction_of, opcode_at, reset_state, loaded, font_glyphs, boot_memory, lowest_pressed, advance,
    MEMORY_SIZE, REGISTER_COUNT, STACK_DEPTH, FLAG, PROGRAM_START, GLYPH_SIZE,
};

verus! {

/// The interpreter: memory, registers, call stack, timers, and the screen and keypad it owns.
pub struct Cpu {
    pub memory: Vec<u8>,
    pub v: Vec<u8>,
    pub i: u16,
    /// Program counter.
    pub pc: u16,
    pub stack: Vec<u16>,
    /// Stack pointer: the number of occupied stack slots.
    pub sp: u8,
    pub display: Display,
    pub keypad: Keypad,
    /// Set when the screen changed since the host last drew it.
    pub draw_flag: bool,
    /// Delay timer.
    pub dt: u8,
    /// Sound timer.
    pub st: u8,
    /// The byte that the next random-and instruction masks. The host refreshes it with a
    /// uniformly drawn byte before each step.
    pub random_byte: u8,
}

impl View for Cpu {
    type V = MachineState;

    open spec fn view(&self) -> MachineState {
        MachineState {
            memory: self.memory@,
            v: self.v@,
            i: self.i,
            pc: self.pc,
            stack: self.stack@,
            sp: self.sp,
            gfx: self.display.gfx@,
            keys: self.keypad.keys@,
            draw_flag: self.draw_flag,
            dt: self.dt,
            st: self.st,
            random_byte: self.random_byte,
        }
    }
}

/// The font glyphs as bytes.
fn font_set() -> (r: Vec<u8>)
    ensures
        r@ == font_glyphs(),
{
    let r: Vec<u8> = vec![
        0xF0, 0x90, 0x90, 0x90, 0xF0,
        0x20, 0x60, 0x20, 0x20, 0x70,
        0xF0, 0x10, 0xF0, 0x80, 0xF0,
        0xF0, 0x10, 0xF0, 0x10, 0xF0,
        0x90, 0x90, 0xF0, 0x10, 0x10,
        0xF0, 0x80, 0xF0, 0x10, 0xF0,
        0xF0, 0x80, 0xF0, 0x90, 0xF0,
        0xF0, 0x10, 0x20, 0x40, 0x40,
        0xF0, 0x90, 0xF0, 0x90, 0xF0,
        0xF0, 0x90, 0xF0, 0x10, 0xF0,
        0xF0, 0x90, 0xF0, 0x90, 0x90,
        0xE0, 0x90, 0xE0, 0x90, 0xE0,
        0xF0, 0x80, 0x80, 0x80, 0xF0,
        0xE0, 0x90, 0x90, 0x90, 0xE0,
        0xF0, 0x80, 0xF0, 0x80, 0xF0,
        0xF0, 0x80, 0xF0, 0x80, 0x80,
    ];
    assert(r@ =~= font_glyphs());
    r
}

impl Cpu {
    /// Sizes are fixed, the stack pointer is within the stack, pixels are 0 or 1.
    pub open spec fn wf(&self) -> bool {
        state_ok(self@)
    }

    /// A machine with everything zeroed, `pc` included; call `reset` before running it.
    pub fn new() -> (r: Cpu)
        ensures
            r.wf(),
            r@ == (MachineState {
                memory: Seq::new(MEMORY_SIZE as nat, |a: int| 0u8),
                v: Seq::new(REGISTER_COUNT as nat, |a: int| 0u8),
                i: 0,
                pc: 0,
                stack: Seq::new(STACK_DEPTH as nat, |a: int| 0u16),
                sp: 0,
                gfx: Seq::new(PIXEL_COUNT as nat, |a: int| 0u8),
                keys: Seq::new(KEY_COUNT as nat, |a: int| false),
                draw_flag: false,
                dt: 0,
                st: 0,
                random_byte: 0,
            }),
    {
        let r = Cpu {
            memory: vec![0u8; MEMORY_SIZE],
            v: vec![0u8; REGISTER_COUNT],
            i: 0,
            pc: 0,
            stack: vec![0u16; STACK_DEPTH],
            sp: 0,
            display: Display::new(),
            keypad: Keypad::new(),
            draw_flag: false,
            dt: 0,
            st: 0,
            random_byte: 0,
        };
        assert(r.memory@ =~= Seq::new(MEMORY_SIZE as nat, |a: int| 0u8));
        assert(r.v@ =~= Seq::new(REGISTER_COUNT as nat, |a: int| 0u8));
        assert(r.stack@ =~= Seq::new(STACK_DEPTH as nat, |a: int| 0u16));
        r
    }

    fn read_opcode(&self) -> (r: u16)
        requires
            self.wf(),
            self.pc + 1 < MEMORY_SIZE,
        ensures
            r == opcode_at(self@),
    {
        let pc = self.pc as usize;
        self.memory[pc] as u16 * 256 + self.memory[pc + 1] as u16
    }

    fn update_timers(&mut self)
        requires
            old(self).wf(),
        ensures
            final(self).wf(),
            final(self)@ == tick(old(self)@),
    {
        if self.dt > 0 {
            self.dt -= 1;
        }
        if self.st > 0 {
            self.st -= 1;
        }
    }

    /// Runs one cycle: fetches the word at `pc`, executes it, then ticks both timers.
    /// On a fault nothing changes and the fault is returned.
    pub fn emulate_cycle(&mut self) -> (r: Result<(), Fault>)
        requires
            old(self).wf(),
        ensures
            final(self).wf(),
            follows(old(self)@, final(self)@, r, cycle(old(self)@)),
    {
        if self.pc as usize + 1 >= MEMORY_SIZE {
            return Err(Fault::AddressOutOfRange);
        }
        let opcode = self.read_opcode();
        let r = self.execute_opcode(opcode);
        if r.is_ok() {
            self.update_timers();
        }
        r
    }

    /// Returns the machine to its boot state: font at address 0, the rest of memory, the
    /// registers, the stack and the screen cleared, `pc` at the program start. Keys and timers
    /// are kept.
    pub fn reset(&mut self)
        requires
            old(self).wf(),
        ensures
            final(self).wf(),
            final(self)@ == reset_state(old(self)@),
    {
        self.memory = vec![0u8; MEMORY_SIZE];
        self.v = vec![0u8; REGISTER_COUNT];
        self.i = 0;
        self.pc = PROGRAM_START;
        self.stack = vec![0u16; STACK_DEPTH];
        self.sp = 0;
        self.display.clear();
        self.draw_flag = false;

        assert(self.v@ =~= reset_state(old(self)@).v);
        assert(self.stack@ =~= reset_state(old(self)@).stack);
        assert(self.display.gfx@ =~= reset_state(old(self)@).gfx);
        let font = font_set();
        let mut k: usize = 0;
        while k < font.len()
            invariant
                font@ == font_glyphs(),
                k <= font@.len(),
                self.memory@.len() == MEMORY_SIZE,
                self@ == (MachineState { memory: self.memory@, ..reset_state(old(self)@) }),
                forall|a: int| 0 <= a < k ==> self.memory@[a] == font@[a],
                forall|a: int| k <= a < MEMORY_SIZE ==> self.memory@[a] == 0,
            decreases font.len() - k,
        {
            self.memory.set(k, font[k]);
            k += 1;
        }
        assert(self.memory@ =~= boot_memory());
    }

    /// Copies `program` into memory from the program start on. Fails, changing nothing, when it
    /// does not fit before the end of memory.
    pub fn load_program(&mut self, program: &[u8]) -> (r: Result<(), Fault>)
        requires
            old(self).wf(),
        ensures
            final(self).wf(),
            follows(old(self)@, final(self)@, r, loaded(old(self)@, program@)),
    {
        let start = PROGRAM_START as usize;
        if program.len() > MEMORY_SIZE - start {
            return Err(Fault::AddressOutOfRange);
        }
        let mut k: usize = 0;
        while k < program.len()
            invariant
                self.wf(),
                start == PROGRAM_START,
                k <= program@.len(),
                program@.len() <= MEMORY_SIZE - start,
                self@ == (MachineState { memory: self.memory@, ..old(self)@ }),
                self.memory@ == Seq::new(MEMORY_SIZE as nat, |a: int|
                    if start <= a < start + k { program@[a - start] } else { old(self).memory@[a] }),
            decreases program.len() - k,
        {
            self.memory.set(start + k, program[k]);
            assert(self.memory@ =~= Seq::new(MEMORY_SIZE as nat, |a: int|
                if start <= a < start + k + 1 { program@[a - start] } else { old(self).memory@[a] }));
            k += 1;
        }
        assert(self.memory@ =~= loaded(old(self)@, program@)->Ok_0.memory);
        Ok(())
    }

    /// Marks the screen as drawn.
    pub fn unset_draw_flag(&mut self)
        ensures
            final(self)@ == (MachineState { draw_flag: false, ..old(self)@ }),
    {
        self.draw_flag = false;
    }

    /// Whether the screen changed since it was last drawn.
    pub fn draw_pending(&self) -> (r: bool)
        ensures
            r == self.draw_flag,
    {
        self.draw_flag
    }

    /// Decodes `opcode` and executes it: `pc` moves past it, then the instruction takes
    /// effect. A word that encodes no instruction does nothing more. On a fault nothing changes
    /// and the fault is returned.
    pub fn execute_opcode(&mut self, opcode: u16) -> (r: Result<(), Fault>)
        requires
            old(self).wf(),
        ensures
            final(self).wf(),
            follows(old(self)@, final(self)@, r, execute(old(self)@, instruction_of(opcode))),
    {
        let ins = decode(opcode);
        let saved = self.pc;
        self.pc = self.pc.wrapping_add(2);
        assert(self@ == advance(old(self)@));
        let r = match ins {
            Instruction::ClearScreen => {
                self.op_00e0();
                Ok(())
            },
            Instruction::Return => self.op_00ee(),
            Instruction::Jump(nnn) => {
                self.op_1nnn(nnn);
                Ok(())
            },
            Instruction::Call(nnn) => self.op_2nnn(nnn),
            Instruction::SkipEqImm(x, kk) => {
                self.op_3xkk(x as usize, kk);
                Ok(())
            },
            Instruction::SkipNeImm(x, kk) => {
                self.op_4xkk(x as usize, kk);
                Ok(())
            },
            Instruction::SkipEqReg(x, y) => {
                self.op_5xy0(x as usize, y as usize);
                Ok(())
            },
            Instruction::LoadImm(x, kk) => {
                self.op_6xkk(x as usize, kk);
                Ok(())
            },
            Instruction::AddImm(x, kk) => {
                self.op_7xkk(x as usize, kk);
                Ok(())
            },
            Instruction::Move(x, y) => {
                self.op_8xy0(x as usize, y as usize);
                Ok(())
            },
            Instruction::Or(x, y) => {
                self.op_8xy1(x as usize, y as usize);
                Ok(())
            },
            Instruction::And(x, y) => {
                self.op_8xy2(x as usize, y as usize);
                Ok(())
            },
            Instruction::Xor(x, y) => {
                self.op_8xy3(x as usize, y as usize);
                Ok(())
            },
            Instruction::AddReg(x, y) => {
                self.op_8xy4(x as usize, y as usize);
                Ok(())
            },
            Instruction::Sub(x, y) => {
                self.op_8xy5(x as usize, y as usize);
                Ok(())
            },
            Instruction::ShiftRight(x) => {
                self.op_8xy6(x as usize);
                Ok(())
            },
            Instruction::SubN(x, y) => {
                self.op_8xy7(x as usize, y as usize);
                Ok(())
            },
            Instruction::ShiftLeft(x) => {
                self.op_8xye(x as usize);
                Ok(())
            },
            Instruction::SkipNeReg(x, y) => {
                self.op_9xy0(x as usize, y as usize);
                Ok(())
            },
            Instruction::SetIndex(nnn) => {
                self.op_annn(nnn);
                Ok(())
            },
            Instruction::JumpOffset(nnn) => {
                self.op_bnnn(nnn);
                Ok(())
            },
            Instruction::RandomAnd(x, kk) => {
                self.op_cxkk(x as usize, kk);
                Ok(())
            },
            Instruction::Draw(x, y, n) => self.op_dxyn(x as usize, y as usize, n as usize),
            Instruction::SkipKeyDown(x) => self.op_ex9e(x as usize),
            Instruction::SkipKeyUp(x) => self.op_exa1(x as usize),
            Instruction::GetDelay(x) => {
                self.op_fx07(x as usize);
                Ok(())
            },
            Instruction::WaitKey(x) => {
                self.op_fx0a(x as usize);
                Ok(())
            },
            Instruction::SetDelay(x) => {
                self.op_fx15(x as usize);
                Ok(())
            },
            Instruction::SetSound(x) => {
                self.op_fx18(x as usize);
                Ok(())
            },
            Instruction::AddIndex(x) => {
                self.op_fx1e(x as usize);
                Ok(())
            },
            Instruction::FontGlyph(x) => {
                self.op_fx29(x as usize);
                Ok(())
            },
            Instruction::StoreBcd(x) => self.op_fx33(x as usize),
            Instruction::StoreRegs(x) => self.op_fx55(x as usize),
            Instruction::LoadRegs(x) => self.op_fx65(x as usize),
            Instruction::Unknown => Ok(()),
        };
        if r.is_err() {
            self.pc = saved;
        }
        r
    }

    fn op_00e0(&mut self)
        requires
            old(self).wf(),
        ensures
            final(self).wf(),
            effect(old(self)@, Instruction::ClearScreen) == Ok::<MachineState, Fault>(final(self)@),
    {
        self.display.clear();
        self.draw_flag = true;
    }

    fn op_00ee(&mut self) -> (r: Result<(), Fault>)
        requires
            old(self).wf(),
        ensures
            final(self).wf(),
            follows(old(self)@, final(self)@, r, effect(old(self)@, Instruction::Return)),
    {
        if self.sp == 0 {
            return Err(Fault::StackUnderflow);
        }
        self.sp -= 1;
        self.pc = self.stack[self.sp as usize];
        Ok(())
    }

    fn op_1nnn(&mut self, nnn: u16)
        requires
            old(self).wf(),
        ensures
            final(self).wf(),
            effect(old(self)@, Instruction::Jump(nnn)) == Ok::<MachineState, Fault>(final(self)@),
    {
        self.pc = nnn;
    }

    fn op_2nnn(&mut self, nnn: u16) -> (r: Result<(), Fault>)
        requires
            old(self).wf(),
        ensures
            final(self).wf(),
            follows(old(self)@, final(self)@, r, effect(old(self)@, Instruction::Call(nnn))),
    {
        if self.sp as usize >= STACK_DEPTH {
            return Err(Fault::StackOverflow);
        }
        self.stack.set(self.sp as usize, self.pc);
        self.sp += 1;
        self.pc = nnn;
        Ok(())
    }

    fn op_3xkk(&mut self, x: usize, kk: u8)
        requires
            old(self).wf(),
            x < 16,
        ensures
            final(self).wf(),
            effect(old(self)@, Instruction::SkipEqImm(x as u8, kk)) == Ok::<MachineState, Fault>(final(self)@),
    {
        if self.v[x] == kk {
            self.pc = self.pc.wrapping_add(2);
        }
    }

    fn op_4xkk(&mut self, x: usize, kk: u8)
        requires
            old(self).wf(),
            x < 16,
        ensures
            final(self).wf(),
            effect(old(self)@, Instruction::SkipNeImm(x as u8, kk)) == Ok::<MachineState, Fault>(final(self)@),
    {
        if self.v[x] != kk {
            self.pc = self.pc.wrapping_add(2);
        }
    }

    fn op_5xy0(&mut self, x: usize, y: usize)
        requires
            old(self).wf(),
            x < 16,
            y < 16,
        ensures
            final(self).wf(),
            effect(old(self)@, Instruction::SkipEqReg(x as u8, y as u8)) == Ok::<MachineState, Fault>(final(self)@),
    {
        if self.v[x] == self.v[y] {
            self.pc = self.pc.wrapping_add(2);
        }
    }

    fn op_6xkk(&mut self, x: usize, kk: u8)
        requires
            old(self).wf(),
            x < 16,
        ensures
            final(self).wf(),
            effect(old(self)@, Instruction::LoadImm(x as u8, kk)) == Ok::<MachineState, Fault>(final(self)@),
    {
        self.v.set(x, kk);
    }

    fn op_7xkk(&mut self, x: usize, kk: u8)
        requires
            old(self).wf(),
            x < 16,
        ensures
            final(self).wf(),
            effect(old(self)@, Instruction::AddImm(x as u8, kk)) == Ok::<MachineState, Fault>(final(self)@),
    {
        let r = self.v[x].wrapping_add(kk);
        self.v.set(x, r);
    }

    fn op_8xy0(&mut self, x: usize, y: usize)
        requires
            old(self).wf(),
            x < 16,
            y < 16,
        ensures
            final(self).wf(),
            effect(old(self)@, Instruction::Move(x as u8, y as u8)) == Ok::<MachineState, Fault>(final(self)@),
    {
        let r = self.v[y];
        self.v.set(x, r);
    }

    fn op_8xy1(&mut self, x: usize, y: usize)
        requires
            old(self).wf(),
            x < 16,
            y < 16,
        ensures
            final(self).wf(),
            effect(old(self)@, Instruction::Or(x as u8, y as u8)) == Ok::<MachineState, Fault>(final(self)@),
    {
        let r = self.v[x] | self.v[y];
        self.v.set(x, r);
    }

    fn op_8xy2(&mut self, x: usize, y: usize)
        requires
            old(self).wf(),
            x < 16,
            y < 16,
        ensures
            final(self).wf(),
            effect(old(self)@, Instruction::And(x as u8, y as u8)) == Ok::<MachineState, Fault>(final(self)@),
    {
        let r = self.v[x] & self.v[y];
        self.v.set(x, r);
    }

    fn op_8xy3(&mut self, x: usize, y: usize)
        requires
            old(self).wf(),
            x < 16,
            y < 16,
        ensures
            final(self).wf(),
            effect(old(self)@, Instruction::Xor(x as u8, y as u8)) == Ok::<MachineState, Fault>(final(self)@),
    {
        let r = self.v[x] ^ self.v[y];
        self.v.set(x, r);
    }

    fn op_8xy4(&mut self, x: usize, y: usize)
        requires
            old(self).wf(),
            x < 16,
            y < 16,
        ensures
            final(self).wf(),
            effect(old(self)@, Instruction::AddReg(x as u8, y as u8)) == Ok::<MachineState, Fault>(final(self)@),
    {
        let sum = self.v[x] as u16 + self.v[y] as u16;
        self.v.set(FLAG, if sum > 255 { 1 } else { 0 });
        self.v.set(x, (sum % 256) as u8);
    }

    fn op_8xy5(&mut self, x: usize, y: usize)
        requires
            old(self).wf(),
            x < 16,
            y < 16,
        ensures
            final(self).wf(),
            effect(old(self)@, Instruction::Sub(x as u8, y as u8)) == Ok::<MachineState, Fault>(final(self)@),
    {
        let a = self.v[x];
        let b = self.v[y];
        self.v.set(FLAG, if a >= b { 1 } else { 0 });
        self.v.set(x, a.wrapping_sub(b));
    }

    fn op_8xy6(&mut self, x: usize)
        requires
            old(self).wf(),
            x < 16,
        ensures
            final(self).wf(),
            effect(old(self)@, Instruction::ShiftRight(x as u8)) == Ok::<MachineState, Fault>(final(self)@),
    {
        let a = self.v[x];
        self.v.set(FLAG, a & 1);
        self.v.set(x, a >> 1u8);
    }

    fn op_8xy7(&mut self, x: usize, y: usize)
        requires
            old(self).wf(),
            x < 16,
            y < 16,
        ensures
            final(self).wf(),
            effect(old(self)@, Instruction::SubN(x as u8, y as u8)) == Ok::<MachineState, Fault>(final(self)@),
    {
        let a = self.v[x];
        let b = self.v[y];
        self.v.set(FLAG, if b >= a { 1 } else { 0 });
        self.v.set(x, b.wrapping_sub(a));
    }

    fn op_8xye(&mut self, x: usize)
        requires
            old(self).wf(),
            x < 16,
        ensures
            final(self).wf(),
            effect(old(self)@, Instruction::ShiftLeft(x as u8)) == Ok::<MachineState, Fault>(final(self)@),
    {
        let a = self.v[x];
        self.v.set(FLAG, a & 0x80);
        self.v.set(x, a << 1u8);
    }

    fn op_9xy0(&mut self, x: usize, y: usize)
        requires
            old(self).wf(),
            x < 16,
            y < 16,
        ensures
            final(self).wf(),
            effect(old(self)@, Instruction::SkipNeReg(x as u8, y as u8)) == Ok::<MachineState, Fault>(final(self)@),
    {
        if self.v[x] != self.v[y] {
            self.pc = self.pc.wrapping_add(2);
        }
    }

    fn op_annn(&mut self, nnn: u16)
        requires
            old(self).wf(),
        ensures
            final(self).wf(),
            effect(old(self)@, Instruction::SetIndex(nnn)) == Ok::<MachineState, Fault>(final(self)@),
    {
        self.i = nnn;
    }

    fn op_bnnn(&mut self, nnn: u16)
        requires
            old(self).wf(),
            nnn < 0x1000,
        ensures
            final(self).wf(),
            effect(old(self)@, Instruction::JumpOffset(nnn)) == Ok::<MachineState, Fault>(final(self)@),
    {
        self.pc = self.v[0] as u16 + nnn;
    }

    fn op_cxkk(&mut self, x: usize, kk: u8)
        requires
            old(self).wf(),
            x < 16,
        ensures
            final(self).wf(),
            effect(old(self)@, Instruction::RandomAnd(x as u8, kk)) == Ok::<MachineState, Fault>(final(self)@),
    {
        let r = self.random_byte & kk;
        self.v.set(x, r);
    }

    fn op_dxyn(&mut self, x: usize, y: usize, n: usize) -> (r: Result<(), Fault>)
        requires
            old(self).wf(),
            x < 16,
            y < 16,
            n < 16,
        ensures
            final(self).wf(),
            follows(old(self)@, final(self)@, r, effect(old(self)@, Instruction::Draw(x as u8, y as u8, n as u8))),
    {
        let start = self.i as usize;
        if start + n > MEMORY_SIZE {
            return Err(Fault::AddressOutOfRange);
        }
        let col = self.v[x] as usize;
        let row = self.v[y] as usize;
        let sprite = slice_subrange(self.memory.as_slice(), start, start + n);
        let collision = self.display.draw_sprite(col, row, sprite);
        self.v.set(FLAG, if collision { 1 } else { 0 });
        self.draw_flag = true;
        Ok(())
    }

    fn op_ex9e(&mut self, x: usize) -> (r: Result<(), Fault>)
        requires
            old(self).wf(),
            x < 16,
        ensures
            final(self).wf(),
            follows(old(self)@, final(self)@, r, effect(old(self)@, Instruction::SkipKeyDown(x as u8))),
    {
        let key = self.v[x];
        if key as usize >= KEY_COUNT {
            return Err(Fault::InvalidKey);
        }
        if self.keypad.is_pressed(key) {
            self.pc = self.pc.wrapping_add(2);
        }
        Ok(())
    }

    fn op_exa1(&mut self, x: usize) -> (r: Result<(), Fault>)
        requires
            old(self).wf(),
            x < 16,
        ensures
            final(self).wf(),
            follows(old(self)@, final(self)@, r, effect(old(self)@, Instruction::SkipKeyUp(x as u8))),
    {
        let key = self.v[x];
        if key as usize >= KEY_COUNT {
            return Err(Fault::InvalidKey);
        }
        if !self.keypad.is_pressed(key) {
            self.pc = self.pc.wrapping_add(2);
        }
        Ok(())
    }

    fn op_fx07(&mut self, x: usize)
        requires
            old(self).wf(),
            x < 16,
        ensures
            final(self).wf(),
            effect(old(self)@, Instruction::GetDelay(x as u8)) == Ok::<MachineState, Fault>(final(self)@),
    {
        let r = self.dt;
        self.v.set(x, r);
    }

    fn op_fx0a(&mut self, x: usize)
        requires
            old(self).wf(),
            x < 16,
        ensures
            final(self).wf(),
            effect(old(self)@, Instruction::WaitKey(x as u8)) == Ok::<MachineState, Fault>(final(self)@),
    {
        let mut k: usize = 0;
        while k < KEY_COUNT
            invariant
                self.wf(),
                self@ == old(self)@,
                k <= KEY_COUNT,
                x < 16,
                lowest_pressed(self.keypad.keys@, 0) == lowest_pressed(self.keypad.keys@, k as int),
            decreases KEY_COUNT - k,
        {
            if self.keypad.keys[k] {
                self.v.set(x, k as u8);
                return;
            }
            k += 1;
        }
        self.pc = self.pc.wrapping_sub(2);
    }

    fn op_fx15(&mut self, x: usize)
        requires
            old(self).wf(),
            x < 16,
        ensures
            final(self).wf(),
            effect(old(self)@, Instruction::SetDelay(x as u8)) == Ok::<MachineState, Fault>(final(self)@),
    {
        self.dt = self.v[x];
    }

    fn op_fx18(&mut self, x: usize)
        requires
            old(self).wf(),
            x < 16,
        ensures
            final(self).wf(),
            effect(old(self)@, Instruction::SetSound(x as u8)) == Ok::<MachineState, Fault>(final(self)@),
    {
        self.st = self.v[x];
    }

    fn op_fx1e(&mut self, x: usize)
        requires
            old(self).wf(),
            x < 16,
        ensures
            final(self).wf(),
            effect(old(self)@, Instruction::AddIndex(x as u8)) == Ok::<MachineState, Fault>(final(self)@),
    {
        self.i = self.i.wrapping_add(self.v[x] as u16);
    }

    fn op_fx29(&mut self, x: usize)
        requires
            old(self).wf(),
            x < 16,
        ensures
            final(self).wf(),
            effect(old(self)@, Instruction::FontGlyph(x as u8)) == Ok::<MachineState, Fault>(final(self)@),
    {
        self.i = self.v[x] as u16 * GLYPH_SIZE;
    }

    fn op_fx33(&mut self, x: usize) -> (r: Result<(), Fault>)
        requires
            old(self).wf(),
            x < 16,
        ensures
            final(self).wf(),
            follows(old(self)@, final(self)@, r, effect(old(self)@, Instruction::StoreBcd(x as u8))),
    {
        let start = self.i as usize;
        if start + 3 > MEMORY_SIZE {
            return Err(Fault::AddressOutOfRange);
        }
        let a = self.v[x];
        self.memory.set(start, a / 100);
        self.memory.set(start + 1, (a / 10) % 10);
        self.memory.set(start + 2, a % 10);
        Ok(())
    }

    fn op_fx55(&mut self, x: usize) -> (r: Result<(), Fault>)
        requires
            old(self).wf(),
            x < 16,
        ensures
            final(self).wf(),
            follows(old(self)@, final(self)@, r, effect(old(self)@, Instruction::StoreRegs(x as u8))),
    {
        let start = self.i as usize;
        if start + x + 1 > MEMORY_SIZE {
            return Err(Fault::AddressOutOfRange);
        }
        let mut r: usize = 0;
        while r <= x
            invariant
                self.wf(),
                x < 16,
                start == old(self).i,
                start + x + 1 <= MEMORY_SIZE,
                r <= x + 1,
                self@ == (MachineState { memory: self.memory@, ..old(self)@ }),
                self.memory@ == Seq::new(MEMORY_SIZE as nat, |a: int|
                    if start <= a < start + r { old(self).v@[a - start] } else { old(self).memory@[a] }),
            decreases x + 1 - r,
        {
            let b = self.v[r];
            self.memory.set(start + r, b);
            assert(self.memory@ =~= Seq::new(MEMORY_SIZE as nat, |a: int|
                if start <= a < start + r + 1 { old(self).v@[a - start] } else { old(self).memory@[a] }));
            r += 1;
        }
        assert(self.memory@ =~= effect(old(self)@, Instruction::StoreRegs(x as u8))->Ok_0.memory);
        Ok(())
    }

    fn op_fx65(&mut self, x: usize) -> (r: Result<(), Fault>)
        requires
            old(self).wf(),
            x < 16,
        ensures
            final(self).wf(),
            follows(old(self)@, final(self)@, r, effect(old(self)@, Instruction::LoadRegs(x as u8))),
    {
        let start = self.i as usize;
        if start + x + 1 > MEMORY_SIZE {
            return Err(Fault::AddressOutOfRange);
        }
        let mut r: usize = 0;
        while r <= x
            invariant
                self.wf(),
                x < 16,
                start == old(self).i,
                start + x + 1 <= MEMORY_SIZE,
                r <= x + 1,
                self@ == (MachineState { v: self.v@, ..old(self)@ }),
                self.v@ == Seq::new(REGISTER_COUNT as nat, |a: int|
                    if a < r { old(self).memory@[start + a] } else { old(self).v@[a] }),
            decreases x + 1 - r,
        {
            let b = self.memory[start + r];
            self.v.set(r, b);
            assert(self.v@ =~= Seq::new(REGISTER_COUNT as nat, |a: int|
                if a < r + 1 { old(self).memory@[start + a] } else { old(self).v@[a] }));
            r += 1;
        }
        assert(self.v@ =~= effect(old(self)@, Instruction::LoadRegs(x as u8))->Ok_0.v);
        Ok(())
    }
}

} // verus!
