//! Laws of the instruction set, proved from the definitions of `decode`
//! and `step`.

use crate::input::Button;
use crate::instruction::{
    decode, encode, word_address, word_byte, word_family, word_nybble, word_x, word_xkk, word_xyn,
    word_y, Instruction, Register,
};
use crate::machine::{
    blank_frame, call, compute, cycle_step, flag, step, with_bcd, wrap16, wrap8, KeyWait,
    MachineState, Outcome, Step,
};
use crate::memory::wrap_address;
use crate::sprite::{blit, collides, lemma_cell_of, row_bit, sprite_in, SpriteView};
use vstd::prelude::*;

verus! {

/// The fields of a word that is put together from two registers and a
/// nybble.
proof fn lemma_fields_xyn(family: int, x: Register, y: Register, n: int)
    requires
        0 <= family < 16,
        0 <= n < 16,
    ensures
        0 <= word_xyn(family, x, y, n) < 0x10000,
        word_family(word_xyn(family, x, y, n) as u16) == family,
        word_x(word_xyn(family, x, y, n) as u16) == x.spec_index(),
        word_y(word_xyn(family, x, y, n) as u16) == y.spec_index(),
        word_nybble(word_xyn(family, x, y, n) as u16) == n,
        Register::numbered(x.spec_index() as int) == x,
        Register::numbered(y.spec_index() as int) == y,
{
    let a = x.spec_index() as int;
    let b = y.spec_index() as int;
    let w = family * 0x1000 + a * 0x100 + b * 0x10 + n;
    assert(0 <= a < 16 && 0 <= b < 16);
    assert(w / 0x1000 == family);
    assert(w / 0x100 == family * 16 + a);
    assert(w / 0x10 == family * 256 + a * 16 + b);
    assert(w % 16 == n);
}

/// The fields of a word that is put together from a register and a byte.
proof fn lemma_fields_xkk(family: int, x: Register, byte: int)
    requires
        0 <= family < 16,
        0 <= byte < 256,
    ensures
        0 <= word_xkk(family, x, byte) < 0x10000,
        word_family(word_xkk(family, x, byte) as u16) == family,
        word_x(word_xkk(family, x, byte) as u16) == x.spec_index(),
        word_byte(word_xkk(family, x, byte) as u16) == byte,
        Register::numbered(x.spec_index() as int) == x,
{
    let a = x.spec_index() as int;
    let w = family * 0x1000 + a * 0x100 + byte;
    assert(0 <= a < 16);
    assert(w / 0x1000 == family);
    assert(w / 0x100 == family * 16 + a);
    assert(w % 0x100 == byte);
}

/// The fields of a word that is put together from an address.
proof fn lemma_fields_nnn(family: int, address: int)
    requires
        0 <= family < 16,
        0 <= address < 0x1000,
    ensures
        word_family((family * 0x1000 + address) as u16) == family,
        word_address((family * 0x1000 + address) as u16) == address,
{
}

/// `decode_inverts_encode` for the instructions that hold an address or
/// nothing.
proof fn lemma_round_trip_addresses(i: Instruction)
    requires
        i.wf(),
        i is ClearDisplay || i is ReturnFromSubRoutine || i is Nop || i is JumpTo || i is Call
            || i is LoadIntoI || i is JumpV0,
    ensures
        0 <= encode(i) < 0x10000,
        decode(encode(i) as u16) == i,
{
    match i {
        Instruction::JumpTo(a) => lemma_fields_nnn(0x1, a as int),
        Instruction::Call(a) => lemma_fields_nnn(0x2, a as int),
        Instruction::LoadIntoI(a) => lemma_fields_nnn(0xA, a as int),
        Instruction::JumpV0(a) => lemma_fields_nnn(0xB, a as int),
        _ => {},
    }
}

/// `decode_inverts_encode` for the instructions that hold a register and a
/// byte.
proof fn lemma_round_trip_bytes(i: Instruction)
    requires
        i is SkipIf || i is SkipIfNot || i is LoadInto || i is Add || i is Random,
    ensures
        0 <= encode(i) < 0x10000,
        decode(encode(i) as u16) == i,
{
    match i {
        Instruction::SkipIf(x, byte) => lemma_fields_xkk(0x3, x, byte as int),
        Instruction::SkipIfNot(x, byte) => lemma_fields_xkk(0x4, x, byte as int),
        Instruction::LoadInto(x, byte) => lemma_fields_xkk(0x6, x, byte as int),
        Instruction::Add(x, byte) => lemma_fields_xkk(0x7, x, byte as int),
        Instruction::Random(x, byte) => lemma_fields_xkk(0xC, x, byte as int),
        _ => {},
    }
}

/// `decode_inverts_encode` for the instructions that hold two registers.
proof fn lemma_round_trip_pairs(i: Instruction)
    requires
        i.wf(),
        i is SkipIfRegistersEqual || i is LoadIntoRegister || i is Or || i is And || i is Xor
            || i is AddRegisters || i is Sub || i is ShiftRight || i is SubBorrow
            || i is ShiftLeft || i is SkipIfNotEqual || i is Draw,
    ensures
        0 <= encode(i) < 0x10000,
        decode(encode(i) as u16) == i,
{
    match i {
        Instruction::SkipIfRegistersEqual(x, y) => lemma_fields_xyn(0x5, x, y, 0),
        Instruction::LoadIntoRegister(x, y) => lemma_fields_xyn(0x8, x, y, 0x0),
        Instruction::Or(x, y) => lemma_fields_xyn(0x8, x, y, 0x1),
        Instruction::And(x, y) => lemma_fields_xyn(0x8, x, y, 0x2),
        Instruction::Xor(x, y) => lemma_fields_xyn(0x8, x, y, 0x3),
        Instruction::AddRegisters(x, y) => lemma_fields_xyn(0x8, x, y, 0x4),
        Instruction::Sub(x, y) => lemma_fields_xyn(0x8, x, y, 0x5),
        Instruction::ShiftRight(x, y) => lemma_fields_xyn(0x8, x, y, 0x6),
        Instruction::SubBorrow(x, y) => lemma_fields_xyn(0x8, x, y, 0x7),
        Instruction::ShiftLeft(x, y) => lemma_fields_xyn(0x8, x, y, 0xE),
        Instruction::SkipIfNotEqual(x, y) => lemma_fields_xyn(0x9, x, y, 0),
        Instruction::Draw(x, y, n) => lemma_fields_xyn(0xD, x, y, n as int),
        _ => {},
    }
}

/// `decode_inverts_encode` for the instructions that hold one register.
proof fn lemma_round_trip_singles(i: Instruction)
    requires
        i is SkipIfPressed || i is SkipIfNotPressed || i is LoadFromDelay || i is WaitForKey
            || i is LoadToDelay || i is LoadToSound || i is AddToI || i is LoadSpriteToI
            || i is LoadBcd || i is LoadToMemory || i is LoadFromMemory,
    ensures
        0 <= encode(i) < 0x10000,
        decode(encode(i) as u16) == i,
{
    match i {
        Instruction::SkipIfPressed(x) => lemma_fields_xkk(0xE, x, 0x9E),
        Instruction::SkipIfNotPressed(x) => lemma_fields_xkk(0xE, x, 0xA1),
        Instruction::LoadFromDelay(x) => lemma_fields_xkk(0xF, x, 0x07),
        Instruction::WaitForKey(x) => lemma_fields_xkk(0xF, x, 0x0A),
        Instruction::LoadToDelay(x) => lemma_fields_xkk(0xF, x, 0x15),
        Instruction::LoadToSound(x) => lemma_fields_xkk(0xF, x, 0x18),
        Instruction::AddToI(x) => lemma_fields_xkk(0xF, x, 0x1E),
        Instruction::LoadSpriteToI(x) => lemma_fields_xkk(0xF, x, 0x29),
        Instruction::LoadBcd(x) => lemma_fields_xkk(0xF, x, 0x33),
        Instruction::LoadToMemory(x) => lemma_fields_xkk(0xF, x, 0x55),
        Instruction::LoadFromMemory(x) => lemma_fields_xkk(0xF, x, 0x65),
        _ => {},
    }
}

/// Decoding undoes encoding: every well-formed instruction is what its own
/// word decodes to. So each of the instructions has a word of its own, and
/// no two of them share one.
pub proof fn decode_inverts_encode(i: Instruction)
    requires
        i.wf(),
    ensures
        0 <= encode(i) < 0x10000,
        decode(encode(i) as u16) == i,
{
    if i is ClearDisplay || i is ReturnFromSubRoutine || i is Nop || i is JumpTo || i is Call
        || i is LoadIntoI || i is JumpV0 {
        lemma_round_trip_addresses(i);
    } else if i is SkipIf || i is SkipIfNot || i is LoadInto || i is Add || i is Random {
        lemma_round_trip_bytes(i);
    } else if i is SkipIfRegistersEqual || i is LoadIntoRegister || i is Or || i is And || i is Xor
        || i is AddRegisters || i is Sub || i is ShiftRight || i is SubBorrow || i is ShiftLeft
        || i is SkipIfNotEqual || i is Draw {
        lemma_round_trip_pairs(i);
    } else {
        lemma_round_trip_singles(i);
    }
}

/// Every word decodes to a well-formed instruction.
pub proof fn decode_is_well_formed(word: u16)
    ensures
        decode(word).wf(),
{
}

/// No instruction but `Random` depends on the random byte.
pub proof fn only_random_is_random(s: MachineState, i: Instruction, a: u8, b: u8)
    requires
        !(i is Random),
    ensures
        step(s, i, a) == step(s, i, b),
{
    reveal(compute);
}

/// Whether an instruction is one of the conditional skips.
pub open spec fn is_skip(i: Instruction) -> bool {
    i is SkipIf || i is SkipIfNot || i is SkipIfRegistersEqual || i is SkipIfNotEqual
        || i is SkipIfPressed || i is SkipIfNotPressed
}

/// Whether an instruction sets the program counter itself, or may leave it
/// where it is: jumps, calls, returns and the wait for a key.
pub open spec fn is_transfer(i: Instruction) -> bool {
    i is JumpTo || i is JumpV0 || i is Call || i is ReturnFromSubRoutine || i is WaitForKey
}

/// Every instruction that is no transfer moves the program counter on: a
/// skip by one or by two instructions, never by none, and every other by
/// exactly one. A word that no opcode is assigned to does so too.
pub proof fn program_counter_moves_on(s: MachineState, i: Instruction, random: u8)
    requires
        !is_transfer(i),
    ensures
        ({
            let pc = step(s, i, random).state.registers.pc;
            &&& is_skip(i) ==> pc == wrap16(s.registers.pc + 2) || pc == wrap16(
                s.registers.pc + 4,
            )
            &&& !is_skip(i) ==> pc == wrap16(s.registers.pc + 2)
        }),
{
    reveal(compute);
}

/// `AddRegisters` leaves the carry in `VF`: 1 if and only if the sum of the
/// two registers is above 255. `Vx` holds the low eight bits of the sum,
/// unless it is `VF` itself.
pub proof fn add_registers_carries(s: MachineState, x: Register, y: Register, random: u8)
    requires
        s.wf(),
    ensures
        ({
            let t = step(s, Instruction::AddRegisters(x, y), random).state;
            &&& t.reg(Register::VF) == flag(s.reg(x) + s.reg(y) > 255)
            &&& x != Register::VF ==> t.reg(x) == wrap8(s.reg(x) + s.reg(y))
        }),
{
    reveal(compute);
}

/// `Sub` leaves 1 in `VF` if and only if `Vx` was at least `Vy`, so that
/// nothing was borrowed. `Vx` holds the difference in eight bits, unless it
/// is `VF` itself.
pub proof fn sub_borrows(s: MachineState, x: Register, y: Register, random: u8)
    requires
        s.wf(),
    ensures
        ({
            let t = step(s, Instruction::Sub(x, y), random).state;
            &&& t.reg(Register::VF) == flag(s.reg(x) >= s.reg(y))
            &&& x != Register::VF ==> t.reg(x) == wrap8(s.reg(x) - s.reg(y))
        }),
{
    reveal(compute);
}

/// `SubBorrow` subtracts the other way round: `VF` is 1 if and only if `Vy`
/// was at least `Vx`.
pub proof fn sub_borrow_borrows(s: MachineState, x: Register, y: Register, random: u8)
    requires
        s.wf(),
    ensures
        ({
            let t = step(s, Instruction::SubBorrow(x, y), random).state;
            &&& t.reg(Register::VF) == flag(s.reg(y) >= s.reg(x))
            &&& x != Register::VF ==> t.reg(x) == wrap8(s.reg(y) - s.reg(x))
        }),
{
    reveal(compute);
}

/// `ShiftRight` leaves in `VF` the lowest bit of `Vy`, the bit that is
/// shifted out. `Vx` holds the other seven, unless it is `VF` itself.
pub proof fn shift_right_carries_out(s: MachineState, x: Register, y: Register, random: u8)
    requires
        s.wf(),
    ensures
        ({
            let t = step(s, Instruction::ShiftRight(x, y), random).state;
            &&& t.reg(Register::VF) == s.reg(y) % 2
            &&& x != Register::VF ==> t.reg(x) == s.reg(y) / 2
        }),
{
    reveal(compute);
}

/// `ShiftLeft` leaves in `VF` the highest bit of `Vy`, the bit that is
/// shifted out. `Vx` holds the other seven, moved up by one, unless it is
/// `VF` itself.
pub proof fn shift_left_carries_out(s: MachineState, x: Register, y: Register, random: u8)
    requires
        s.wf(),
    ensures
        ({
            let t = step(s, Instruction::ShiftLeft(x, y), random).state;
            &&& t.reg(Register::VF) == s.reg(y) / 128
            &&& x != Register::VF ==> t.reg(x) == wrap8(s.reg(y) * 2)
        }),
{
    reveal(compute);
}

/// `LoadBcd` writes the hundreds, tens and ones of `Vx` to the addresses
/// `I`, `I + 1` and `I + 2`, and to no other.
pub proof fn load_bcd_writes_digits(s: MachineState, x: Register, random: u8)
    requires
        s.wf(),
    ensures
        ({
            let t = step(s, Instruction::LoadBcd(x), random).state;
            let v = s.reg(x);
            let i = s.registers.vi;
            &&& t.memory.len() == 4096
            &&& t.memory[wrap_address(i as int)] == v / 100
            &&& t.memory[wrap_address(i + 1)] == (v / 10) % 10
            &&& t.memory[wrap_address(i + 2)] == v % 10
            &&& forall|a: int|
                0 <= a < 4096 && a != wrap_address(i as int) && a != wrap_address(i + 1) && a
                    != wrap_address(i + 2) ==> t.memory[a] == s.memory[a]
        }),
{
    reveal(compute);
    let v = s.reg(x);
    let i = s.registers.vi;
    let t = step(s, Instruction::LoadBcd(x), random).state;
    let first = wrap_address(i as int);
    let second = wrap_address(i + 1);
    let third = wrap_address(i + 2);
    assert(0 <= first < 4096 && 0 <= second < 4096 && 0 <= third < 4096);
    assert(first != second && second != third && first != third);
    assert(t.memory == with_bcd(s.memory, i, v));
    assert(t.memory == s.memory.update(first, v / 100).update(second, (v / 10) % 10).update(
        third,
        v % 10,
    ));
}

/// The three digits that `LoadBcd` writes are the decimal digits of the
/// value: each is below ten, and together they make up the value.
pub proof fn bcd_digits_make_up_value(v: u8)
    ensures
        v / 100 < 10,
        (v / 10) % 10 < 10,
        v % 10 < 10,
        100 * (v / 100) + 10 * ((v / 10) % 10) + v % 10 == v,
{
}

/// What `Call` does.
proof fn lemma_call(s: MachineState, address: u16, random: u8)
    ensures
        step(s, Instruction::Call(address), random) == (Step {
            state: call(s.with_status(KeyWait::Idle), address),
            result: Ok(Outcome::Success),
        }),
{
    reveal(compute);
}

/// What a return does where the stack holds an address.
proof fn lemma_return(s: MachineState, random: u8)
    requires
        s.registers.stack.len() > 0,
    ensures
        step(s, Instruction::ReturnFromSubRoutine, random).result == Ok::<Outcome, ()>(
            Outcome::Success,
        ),
        step(s, Instruction::ReturnFromSubRoutine, random).state.registers.pc
            == s.registers.stack.last(),
        step(s, Instruction::ReturnFromSubRoutine, random).state.registers.stack
            == s.registers.stack.drop_last(),
{
}

/// A `Call` that is followed at once by a return leads to the instruction
/// behind the call, with the stack as it was.
pub proof fn call_then_return(s: MachineState, address: u16, r1: u8, r2: u8)
    ensures
        ({
            let called = step(s, Instruction::Call(address), r1);
            let returned = step(called.state, Instruction::ReturnFromSubRoutine, r2);
            &&& called.result == Ok::<Outcome, ()>(Outcome::Success)
            &&& called.state.registers.pc == address
            &&& returned.result == Ok::<Outcome, ()>(Outcome::Success)
            &&& returned.state.registers.pc == wrap16(s.registers.pc + 2)
            &&& returned.state.registers.stack == s.registers.stack
        }),
{
    lemma_call(s, address, r1);
    let called = call(s.with_status(KeyWait::Idle), address);
    lemma_return(called, r2);
    assert(called.registers.stack.drop_last() =~= s.registers.stack);
}

/// A return with nothing on the stack is the fault of the engine, and
/// changes nothing.
pub proof fn return_on_empty_stack_faults(s: MachineState, random: u8)
    requires
        s.registers.stack.len() == 0,
    ensures
        step(s, Instruction::ReturnFromSubRoutine, random).result == Err::<Outcome, ()>(()),
        step(s, Instruction::ReturnFromSubRoutine, random).state == s,
{
}

/// The state after `i` has been run `n` times in a row.
pub open spec fn repeated(s: MachineState, i: Instruction, n: nat) -> MachineState
    decreases n,
{
    if n == 0 {
        s
    } else {
        step(repeated(s, i, (n - 1) as nat), i, 0).state
    }
}

/// While no key is released, `WaitForKey` blocks: however often it is run
/// again after it began to wait, it reports `Waiting` and the state stays
/// as it is.
pub proof fn wait_blocks_without_release(s: MachineState, x: Register, n: nat)
    requires
        s.status == KeyWait::Waiting(x),
        s.input.last_released is None,
    ensures
        repeated(s, Instruction::WaitForKey(x), n) == s,
        step(repeated(s, Instruction::WaitForKey(x), n), Instruction::WaitForKey(x), 0).result
            == Ok::<Outcome, ()>(Outcome::Waiting),
    decreases n,
{
    if n > 0 {
        wait_blocks_without_release(s, x, (n - 1) as nat);
    }
}

/// `WaitForKey` from its first run to its end. Met first, it blocks and
/// begins to wait. Run again `n` times with no key released, it blocks each
/// time. Run once more after `key` came up, it ends: `Vx` holds the value of
/// `key`, and the program counter has moved on by one instruction.
pub proof fn wait_for_key_resolves(s: MachineState, x: Register, n: nat, key: Button)
    requires
        s.wf(),
        s.status != KeyWait::Waiting(x),
    ensures
        ({
            let wait = Instruction::WaitForKey(x);
            let begun = step(s, wait, 0);
            let waited = repeated(begun.state, wait, n);
            let released = MachineState { input: waited.input.released(key), ..waited };
            let done = step(released, wait, 0);
            &&& begun.result == Ok::<Outcome, ()>(Outcome::Waiting)
            &&& begun.state.registers == s.registers
            &&& forall|m: nat|
                m <= n ==> #[trigger] step(repeated(begun.state, wait, m), wait, 0).result == Ok::<
                    Outcome,
                    (),
                >(Outcome::Waiting)
            &&& waited == begun.state
            &&& done.result == Ok::<Outcome, ()>(Outcome::Success)
            &&& done.state.reg(x) == key.spec_code()
            &&& done.state.registers.pc == wrap16(s.registers.pc + 2)
            &&& done.state.status == KeyWait::Idle
            &&& done.state.input.last_released is None
        }),
{
    let wait = Instruction::WaitForKey(x);
    let begun = step(s, wait, 0);
    assert forall|m: nat| m <= n implies #[trigger] step(
        repeated(begun.state, wait, m),
        wait,
        0,
    ).result == Ok::<Outcome, ()>(Outcome::Waiting) by {
        wait_blocks_without_release(begun.state, x, m);
    }
    wait_blocks_without_release(begun.state, x, n);
}

/// The state after `n` cycles, none of which draws a random byte.
pub open spec fn cycled(s: MachineState, n: nat) -> MachineState
    decreases n,
{
    if n == 0 {
        s
    } else {
        cycle_step(cycled(s, (n - 1) as nat), 0).state
    }
}

/// A jump to itself goes on for ever: where the word at the program counter
/// is a jump to the program counter, every cycle ends in `Success` and
/// leaves the display, the registers, memory and the keypad as they were.
pub proof fn jump_to_self_loops(s: MachineState, n: nat)
    requires
        s.registers.pc < 0x1000,
        s.word_at_pc() == 0x1000 + s.registers.pc,
    ensures
        n > 0 ==> cycled(s, n) == s.with_status(KeyWait::Idle),
        cycle_step(cycled(s, n), 0) == (Step {
            state: s.with_status(KeyWait::Idle),
            result: Ok(Outcome::Success),
        }),
    decreases n,
{
    if n > 0 {
        jump_to_self_loops(s, (n - 1) as nat);
    }
    let now = cycled(s, n);
    assert(now.word_at_pc() == s.word_at_pc() && now.registers.pc == s.registers.pc);
    lemma_fields_nnn(0x1, s.registers.pc as int);
    assert(decode(now.word_at_pc()) == Instruction::JumpTo(s.registers.pc));
    lemma_jump(now, s.registers.pc, 0);
}

/// What a jump does.
proof fn lemma_jump(s: MachineState, address: u16, random: u8)
    ensures
        step(s, Instruction::JumpTo(address), random) == (Step {
            state: s.with_status(KeyWait::Idle).with_pc(address),
            result: Ok(Outcome::Success),
        }),
{
    reveal(compute);
}

/// A byte that is not zero has a set bit.
proof fn lemma_set_bit(row: u8) -> (column: int)
    requires
        row != 0,
    ensures
        0 <= column < 8,
        row_bit(row, column),
{
    assert((row >> 7u8) & 1u8 == 1u8 || (row >> 6u8) & 1u8 == 1u8 || (row >> 5u8) & 1u8 == 1u8 || (
    row >> 4u8) & 1u8 == 1u8 || (row >> 3u8) & 1u8 == 1u8 || (row >> 2u8) & 1u8 == 1u8 || (row
        >> 1u8) & 1u8 == 1u8 || (row >> 0u8) & 1u8 == 1u8) by (bit_vector)
        requires
            row != 0,
    ;
    if row_bit(row, 0) {
        0
    } else if row_bit(row, 1) {
        1
    } else if row_bit(row, 2) {
        2
    } else if row_bit(row, 3) {
        3
    } else if row_bit(row, 4) {
        4
    } else if row_bit(row, 5) {
        5
    } else if row_bit(row, 6) {
        6
    } else {
        7
    }
}

/// Drawing a sprite twice at the same place gives back the frame that was
/// there before. The second drawing reports a collision if and only if the
/// first lit a cell that was dark.
pub proof fn draw_twice_restores(frame: Seq<bool>, sprite: SpriteView)
    requires
        frame.len() == 2048,
    ensures
        blit(blit(frame, sprite), sprite) == frame,
        collides(blit(frame, sprite), sprite) <==> exists|cell: int|
            0 <= cell < 2048 && !frame[cell] && #[trigger] sprite.lit(cell),
{
    let once = blit(frame, sprite);
    assert(blit(once, sprite) =~= frame);
    if collides(once, sprite) {
        let cell = choose|cell: int| 0 <= cell < once.len() && once[cell] && #[trigger] sprite.lit(cell);
        assert(!frame[cell] && sprite.lit(cell));
    }
    if exists|cell: int| 0 <= cell < 2048 && !frame[cell] && #[trigger] sprite.lit(cell) {
        let cell = choose|cell: int| 0 <= cell < 2048 && !frame[cell] && #[trigger] sprite.lit(cell);
        assert(once[cell] && sprite.lit(cell));
    }
}

/// A sprite with a row that is not zero has a set pixel over some cell.
pub proof fn nonempty_sprite_lights_a_cell(sprite: SpriteView, row: int) -> (cell: int)
    requires
        sprite.wf(),
        0 <= row < sprite.rows.len(),
        sprite.rows[row] != 0,
    ensures
        0 <= cell < 2048,
        sprite.lit(cell),
{
    let column = lemma_set_bit(sprite.rows[row]);
    lemma_cell_of(sprite, row, column);
    sprite.cell_of(row, column)
}

/// `Draw` run twice on a blank display, with a sprite that has a set pixel
/// and with coordinates that are not kept in `VF`: the first drawing reports
/// no collision, the second reports one and leaves the display blank again.
pub proof fn draw_twice_collides(
    s: MachineState,
    x: Register,
    y: Register,
    n: u8,
    row: int,
    r1: u8,
    r2: u8,
)
    requires
        s.wf(),
        s.frame == blank_frame(),
        x != Register::VF,
        y != Register::VF,
        0 <= row < n % 16,
        s.memory[(s.registers.vi + row) % 4096] != 0,
    ensures
        ({
            let first = step(s, Instruction::Draw(x, y, n), r1).state;
            let second = step(first, Instruction::Draw(x, y, n), r2).state;
            &&& first.reg(Register::VF) == 0
            &&& second.reg(Register::VF) == 1
            &&& second.frame == blank_frame()
        }),
{
    let sprite = sprite_in(s.memory, s.registers.vi, s.reg(x), s.reg(y), n);
    let first = step(s, Instruction::Draw(x, y, n), r1).state;
    assert(first.reg(x) == s.reg(x) && first.reg(y) == s.reg(y));
    assert(sprite_in(first.memory, first.registers.vi, first.reg(x), first.reg(y), n) == sprite);
    assert(first.frame == blit(s.frame, sprite));
    draw_twice_restores(s.frame, sprite);
    let cell = nonempty_sprite_lights_a_cell(sprite, row);
    assert(!s.frame[cell] && sprite.lit(cell));
    assert(!collides(s.frame, sprite)) by {
        if collides(s.frame, sprite) {
            let c = choose|c: int| 0 <= c < s.frame.len() && s.frame[c] && #[trigger] sprite.lit(c);
            assert(false);
        }
    }
}

} // verus!
