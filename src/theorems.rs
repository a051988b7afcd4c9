use vstd::prelude::*;
use crate::machine::{
    Instruction, MachineState, state_ok, execute, cycle, tick, instruction_of, opcode_at,
    reset_state, lowest_pressed, add16, MEMORY_SIZE,
};

verus! {

/// Add-immediate adds modulo 256 and leaves the flag register alone unless it is the target.
pub proof fn add_imm_wraps(s: MachineState, x: u8, kk: u8)
    requires
        state_ok(s),
        x < 16,
    ensures
        execute(s, Instruction::AddImm(x, kk)) is Ok,
        execute(s, Instruction::AddImm(x, kk))->Ok_0.v[x as int] == (s.v[x as int] + kk) % 256,
        x != 15 ==> execute(s, Instruction::AddImm(x, kk))->Ok_0.v[15] == s.v[15],
{
}

/// Add-register leaves the sum modulo 256 in `v[x]` and sets the flag register to 1 exactly
/// when the unsigned sum exceeds 255, to 0 otherwise.
pub proof fn add_reg_carry(s: MachineState, x: u8, y: u8)
    requires
        state_ok(s),
        x < 15,
        y < 16,
    ensures
        execute(s, Instruction::AddReg(x, y)) is Ok,
        execute(s, Instruction::AddReg(x, y))->Ok_0.v[x as int] == (s.v[x as int] + s.v[y as int]) % 256,
        execute(s, Instruction::AddReg(x, y))->Ok_0.v[15] == 1 <==> s.v[x as int] + s.v[y as int] > 255,
        execute(s, Instruction::AddReg(x, y))->Ok_0.v[15] == 0 <==> s.v[x as int] + s.v[y as int] <= 255,
{
}

/// Subtract sets the flag register to 1 exactly when `v[x] >= v[y]` (no borrow), to 0
/// otherwise, and leaves the difference modulo 256 in `v[x]`.
pub proof fn sub_borrow(s: MachineState, x: u8, y: u8)
    requires
        state_ok(s),
        x < 15,
        y < 16,
    ensures
        execute(s, Instruction::Sub(x, y)) is Ok,
        execute(s, Instruction::Sub(x, y))->Ok_0.v[x as int] == (s.v[x as int] - s.v[y as int] + 256) % 256,
        s.v[x as int] >= s.v[y as int] ==> execute(s, Instruction::Sub(x, y))->Ok_0.v[x as int] == s.v[x as int] - s.v[y as int],
        execute(s, Instruction::Sub(x, y))->Ok_0.v[15] == 1 <==> s.v[x as int] >= s.v[y as int],
        execute(s, Instruction::Sub(x, y))->Ok_0.v[15] == 0 <==> s.v[x as int] < s.v[y as int],
{
}

/// Shift-left puts the raw pre-shift high bit in the flag register: `0x80` when bit 7 was
/// set, 0 otherwise, never 1.
pub proof fn shift_left_flag(s: MachineState, x: u8)
    requires
        state_ok(s),
        x < 15,
    ensures
        execute(s, Instruction::ShiftLeft(x)) is Ok,
        execute(s, Instruction::ShiftLeft(x))->Ok_0.v[15] == s.v[x as int] & 0x80,
        execute(s, Instruction::ShiftLeft(x))->Ok_0.v[15] == (if s.v[x as int] >= 0x80 { 0x80u8 } else { 0u8 }),
        execute(s, Instruction::ShiftLeft(x))->Ok_0.v[x as int] == (s.v[x as int] * 2) % 256,
{
    let a = s.v[x as int];
    assert((a & 0x80u8) == (if a >= 0x80u8 { 0x80u8 } else { 0u8 })) by (bit_vector);
    assert((a << 1u8) as int == (a * 2) % 256) by (bit_vector);
}

/// Shift-right puts the raw pre-shift low bit in the flag register and halves `v[x]`.
pub proof fn shift_right_flag(s: MachineState, x: u8)
    requires
        state_ok(s),
        x < 15,
    ensures
        execute(s, Instruction::ShiftRight(x)) is Ok,
        execute(s, Instruction::ShiftRight(x))->Ok_0.v[15] == s.v[x as int] & 1,
        execute(s, Instruction::ShiftRight(x))->Ok_0.v[15] == s.v[x as int] % 2,
        execute(s, Instruction::ShiftRight(x))->Ok_0.v[x as int] == s.v[x as int] / 2,
{
    let a = s.v[x as int];
    assert((a & 1u8) as int == a % 2) by (bit_vector);
    assert((a >> 1u8) as int == a / 2) by (bit_vector);
}

/// No key at or above `k` is pressed.
proof fn lemma_none_pressed(keys: Seq<bool>, k: int)
    requires
        0 <= k <= 16,
        keys.len() == 16,
        forall|j: int| k <= j < 16 ==> !#[trigger] keys[j],
    ensures
        lowest_pressed(keys, k) is None,
    decreases 16 - k,
{
    if k < 16 {
        lemma_none_pressed(keys, k + 1);
    }
}

/// Key `m` is pressed and no key from `k` up to it is.
proof fn lemma_first_pressed(keys: Seq<bool>, k: int, m: int)
    requires
        0 <= k <= m < 16,
        keys.len() == 16,
        keys[m],
        forall|j: int| k <= j < m ==> !#[trigger] keys[j],
    ensures
        lowest_pressed(keys, k) == Some(m as u8),
    decreases m - k,
{
    if k < m {
        lemma_first_pressed(keys, k + 1, m);
    }
}

/// A cycle on wait-for-key with no key pressed leaves `pc` where it was; only the timers tick.
pub proof fn wait_key_stalls(s: MachineState, x: u8)
    requires
        state_ok(s),
        x < 16,
        s.pc + 1 < MEMORY_SIZE,
        instruction_of(opcode_at(s)) == Instruction::WaitKey(x),
        forall|k: int| 0 <= k < 16 ==> !#[trigger] s.keys[k],
    ensures
        cycle(s) is Ok,
        cycle(s)->Ok_0.pc == s.pc,
        cycle(s)->Ok_0 == tick(s),
{
    lemma_none_pressed(s.keys, 0);
}

/// A cycle on wait-for-key with key `m` the lowest pressed moves `pc` on by two and loads `m`
/// into `v[x]`.
pub proof fn wait_key_takes_lowest(s: MachineState, x: u8, m: int)
    requires
        state_ok(s),
        x < 16,
        s.pc + 1 < MEMORY_SIZE,
        instruction_of(opcode_at(s)) == Instruction::WaitKey(x),
        0 <= m < 16,
        s.keys[m],
        forall|k: int| 0 <= k < m ==> !#[trigger] s.keys[k],
    ensures
        cycle(s) is Ok,
        cycle(s)->Ok_0.pc == s.pc + 2,
        cycle(s)->Ok_0.v[x as int] == m,
{
    lemma_first_pressed(s.keys, 0, m);
}

/// A call followed by a return comes back to the instruction after the call, with the stack
/// pointer restored.
pub proof fn call_return_round_trip(s: MachineState, nnn: u16)
    requires
        state_ok(s),
        s.sp < 16,
    ensures
        execute(s, Instruction::Call(nnn)) is Ok,
        execute(execute(s, Instruction::Call(nnn))->Ok_0, Instruction::Return) is Ok,
        execute(execute(s, Instruction::Call(nnn))->Ok_0, Instruction::Return)->Ok_0.pc == add16(s.pc as int, 2),
        execute(execute(s, Instruction::Call(nnn))->Ok_0, Instruction::Return)->Ok_0.sp == s.sp,
{
}

/// A cycle lowers each timer by one unless it is zero, where it stays; only the instruction
/// that sets a timer changes it otherwise.
pub proof fn timers_count_down(s: MachineState)
    requires
        state_ok(s),
        cycle(s) is Ok,
    ensures
        !(instruction_of(opcode_at(s)) is SetDelay) ==> cycle(s)->Ok_0.dt == (if s.dt > 0 { s.dt - 1 } else { 0 }),
        !(instruction_of(opcode_at(s)) is SetSound) ==> cycle(s)->Ok_0.st == (if s.st > 0 { s.st - 1 } else { 0 }),
{
}

/// Resetting twice gives the same state as resetting once.
pub proof fn reset_idempotent(s: MachineState)
    ensures
        reset_state(reset_state(s)) == reset_state(s),
{
}

} // verus!
