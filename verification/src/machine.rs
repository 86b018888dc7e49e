//! The execution engine: the state of the machine and what each instruction
//! does to it.

use crate::display::{DisplayCommand, DisplayCommandView};
use crate::input::{Chip8Controller, Controller, InputView};
use crate::instruction::{decode, parse_opcode, Instruction, Register};
use crate::memory::{loaded, Ram, Registers, RegistersView};
use crate::sprite::{blit, collides, sprite_in, Sprite};
use rand::Rng;
use vstd::prelude::*;

verus! {

/// Whether the engine is in the middle of waiting for a key.
#[derive(Clone, Copy, Debug, PartialEq, Eq, Structural)]
pub enum KeyWait {
    /// No wait is going on.
    Idle,
    /// A wait has begun; the key is to go to this register.
    Waiting(Register),
}

/// How an instruction ended.
#[derive(Clone, Copy, Debug, PartialEq, Eq)]
pub enum InstructionResult {
    /// Done; the program counter points at the next instruction.
    Success,
    /// Done, and the display has changed.
    Display(DisplayCommand),
    /// Waiting for a key: the same instruction is to be run again.
    Waiting,
}

/// Mathematical model of `InstructionResult`.
#[verifier::ext_equal]
pub enum Outcome {
    Success,
    Display(DisplayCommandView),
    Waiting,
}

impl View for InstructionResult {
    type V = Outcome;

    open spec fn view(&self) -> Outcome {
        match self {
            InstructionResult::Success => Outcome::Success,
            InstructionResult::Display(command) => Outcome::Display(command@),
            InstructionResult::Waiting => Outcome::Waiting,
        }
    }
}

/// Model of what `run_instruction` returns. `Err` is the one fault of the
/// engine: a return with nothing on the stack.
pub open spec fn outcome_of(r: Result<InstructionResult, ()>) -> Result<Outcome, ()> {
    match r {
        Ok(result) => Ok(result@),
        Err(_) => Err(()),
    }
}

/// The machine.
pub struct Chip8 {
    pub registers: Registers,
    pub memory: Ram,
    pub controller: Chip8Controller,
    /// 32 rows of 64 cells, row after row; `true` is a lit cell.
    pub frame_buffer: [bool; 2048],
    pub status: KeyWait,
}

/// Mathematical model of the machine.
pub struct MachineState {
    pub registers: RegistersView,
    pub memory: Seq<u8>,
    pub input: InputView,
    pub frame: Seq<bool>,
    pub status: KeyWait,
}

impl View for Chip8 {
    type V = MachineState;

    open spec fn view(&self) -> MachineState {
        MachineState {
            registers: self.registers@,
            memory: self.memory@,
            input: self.controller@,
            frame: self.frame_buffer@,
            status: self.status,
        }
    }
}

/// A state together with the result of the instruction that led to it.
pub struct Step {
    pub state: MachineState,
    pub result: Result<Outcome, ()>,
}

/// A value reduced to 16 bits.
pub open spec fn wrap16(v: int) -> u16 {
    (v % 0x10000) as u16
}

/// A value reduced to 8 bits.
pub open spec fn wrap8(v: int) -> u8 {
    (v % 0x100) as u8
}

/// The flag value for a condition.
pub open spec fn flag(set: bool) -> u8 {
    if set {
        1
    } else {
        0
    }
}

/// A frame with every cell dark.
pub open spec fn blank_frame() -> Seq<bool> {
    Seq::new(2048, |cell: int| false)
}

/// Memory after the first `count` registers have been stored from `address`
/// on, addresses taken modulo the size of memory.
pub open spec fn stored(memory: Seq<u8>, address: u16, r: Seq<u8>, count: int) -> Seq<u8> {
    Seq::new(
        memory.len(),
        |a: int|
            if (a - address) % 4096 < count {
                r[(a - address) % 4096]
            } else {
                memory[a]
            },
    )
}

/// The registers after the first `count` of them have been filled from
/// memory at `address` on, addresses taken modulo the size of memory.
pub open spec fn fetched(r: Seq<u8>, memory: Seq<u8>, address: u16, count: int) -> Seq<u8> {
    Seq::new(
        r.len(),
        |k: int|
            if k < count {
                memory[(address + k) % 4096]
            } else {
                r[k]
            },
    )
}

/// Memory after the three decimal digits of `value` have been written at
/// `address`, `address + 1` and `address + 2`: hundreds, tens, ones.
pub open spec fn with_bcd(memory: Seq<u8>, address: u16, value: u8) -> Seq<u8> {
    memory.update(address as int % 4096, value / 100).update(
        (address + 1) % 4096,
        (value / 10) % 10,
    ).update((address + 2) % 4096, value % 10)
}

impl MachineState {
    /// The sizes that the machine's arrays have.
    pub open spec fn wf(self) -> bool {
        &&& self.registers.r.len() == 16
        &&& self.memory.len() == 4096
        &&& self.frame.len() == 2048
    }

    /// The machine as `Chip8::new` makes it.
    pub open spec fn initial(data: Seq<u8>) -> MachineState {
        MachineState {
            registers: RegistersView::initial(),
            memory: loaded(Seq::new(4096, |a: int| 0u8), data),
            input: InputView::idle(),
            frame: blank_frame(),
            status: KeyWait::Idle,
        }
    }

    /// The value of a general register.
    pub open spec fn reg(self, x: Register) -> u8 {
        self.registers.r[x.spec_index() as int]
    }

    pub open spec fn with_reg(self, x: Register, value: u8) -> MachineState {
        MachineState {
            registers: RegistersView {
                r: self.registers.r.update(x.spec_index() as int, value),
                ..self.registers
            },
            ..self
        }
    }

    pub open spec fn with_index(self, value: u16) -> MachineState {
        MachineState { registers: RegistersView { vi: value, ..self.registers }, ..self }
    }

    pub open spec fn with_delay(self, value: u8) -> MachineState {
        MachineState { registers: RegistersView { delay: value, ..self.registers }, ..self }
    }

    pub open spec fn with_sound(self, value: u8) -> MachineState {
        MachineState { registers: RegistersView { sound: value, ..self.registers }, ..self }
    }

    pub open spec fn with_pc(self, value: u16) -> MachineState {
        MachineState { registers: RegistersView { pc: value, ..self.registers }, ..self }
    }

    pub open spec fn with_memory(self, memory: Seq<u8>) -> MachineState {
        MachineState { memory, ..self }
    }

    pub open spec fn with_status(self, status: KeyWait) -> MachineState {
        MachineState { status, ..self }
    }

    /// The program counter moved on by a number of instruction widths.
    pub open spec fn advanced(self, widths: int) -> MachineState {
        self.with_pc(wrap16(self.registers.pc + 2 * widths))
    }

    /// The program counter moved past the next instruction if `skip` holds,
    /// and to it if not.
    pub open spec fn skipping(self, skip: bool) -> MachineState {
        self.advanced(
            if skip {
                2
            } else {
                1
            },
        )
    }

    /// The state after one tick of the timer clock.
    pub open spec fn ticked(self) -> MachineState {
        MachineState { registers: self.registers.ticked(), ..self }
    }

    /// The instruction word at the program counter: two bytes, the high one
    /// first.
    pub open spec fn word_at_pc(self) -> u16 {
        (self.memory[self.registers.pc as int % 4096] * 0x100 + self.memory[(self.registers.pc
            + 1) % 4096]) as u16
    }
}

/// `ClearDisplay`: every cell goes dark.
pub open spec fn clear_display(s: MachineState) -> Step {
    Step {
        state: MachineState { frame: blank_frame(), ..s.advanced(1) },
        result: Ok(Outcome::Display(DisplayCommandView::ClearDisplay)),
    }
}

/// `ReturnFromSubRoutine`: the program counter becomes the address on top
/// of the stack. With an empty stack nothing changes and the engine faults.
pub open spec fn return_from_subroutine(s: MachineState, before: MachineState) -> Step {
    if s.registers.stack.len() > 0 {
        Step {
            state: MachineState {
                registers: RegistersView {
                    pc: s.registers.stack.last(),
                    stack: s.registers.stack.drop_last(),
                    ..s.registers
                },
                ..s
            },
            result: Ok(Outcome::Success),
        }
    } else {
        Step { state: before, result: Err(()) }
    }
}

/// `Call`: the address of the next instruction goes on the stack.
pub open spec fn call(s: MachineState, address: u16) -> MachineState {
    MachineState {
        registers: RegistersView {
            pc: address,
            stack: s.registers.stack.push(wrap16(s.registers.pc + 2)),
            ..s.registers
        },
        ..s
    }
}

/// `Draw`: the sprite of `n` rows at `I` is drawn at `(Vx, Vy)`, and `VF`
/// tells whether a lit cell went dark.
pub open spec fn draw(s: MachineState, x: Register, y: Register, n: u8) -> Step {
    let sprite = sprite_in(s.memory, s.registers.vi, s.reg(x), s.reg(y), n);
    let frame = blit(s.frame, sprite);
    Step {
        state: MachineState { frame, ..s.with_reg(Register::VF, flag(collides(s.frame, sprite))) }.advanced(1),
        result: Ok(Outcome::Display(DisplayCommandView::Draw(frame))),
    }
}

/// `WaitForKey`. Met for the first time, it empties the slot of the last
/// released key and begins to wait. Run again while it waits, it ends as
/// soon as the slot holds a key: the key's value goes to `Vx`, the slot is
/// emptied and the program counter moves on.
pub open spec fn wait_for_key(s: MachineState, x: Register) -> Step {
    if s.status == KeyWait::Waiting(x) {
        match s.input.last_released {
            Some(key) => Step {
                state: MachineState {
                    input: s.input.cleared(),
                    status: KeyWait::Idle,
                    ..s.with_reg(x, key.spec_code())
                }.advanced(1),
                result: Ok(Outcome::Success),
            },
            None => Step { state: s, result: Ok(Outcome::Waiting) },
        }
    } else {
        Step {
            state: MachineState { input: s.input.cleared(), status: KeyWait::Waiting(x), ..s },
            result: Ok(Outcome::Waiting),
        }
    }
}

/// What an instruction that only computes does to the state. `random` is
/// the byte that `Random` draws. The definition is long, so it is opaque: a
/// proof that needs it says `reveal(compute)`.
#[verifier::opaque]
pub open spec fn compute(s: MachineState, i: Instruction, random: u8) -> MachineState {
    match i {
        Instruction::JumpTo(address) => s.with_pc(address),
        Instruction::Call(address) => call(s, address),
        Instruction::SkipIf(x, v) => s.skipping(s.reg(x) == v),
        Instruction::SkipIfNot(x, v) => s.skipping(s.reg(x) != v),
        Instruction::SkipIfRegistersEqual(x, y) => s.skipping(s.reg(x) == s.reg(y)),
        Instruction::LoadInto(x, v) => s.with_reg(x, v).advanced(1),
        Instruction::Add(x, v) => s.with_reg(x, wrap8(s.reg(x) + v)).advanced(1),
        Instruction::LoadIntoRegister(x, y) => s.with_reg(x, s.reg(y)).advanced(1),
        Instruction::Or(x, y) => s.with_reg(x, s.reg(x) | s.reg(y)).advanced(1),
        Instruction::And(x, y) => s.with_reg(x, s.reg(x) & s.reg(y)).advanced(1),
        Instruction::Xor(x, y) => s.with_reg(x, s.reg(x) ^ s.reg(y)).advanced(1),
        Instruction::AddRegisters(x, y) => s.with_reg(x, wrap8(s.reg(x) + s.reg(y))).with_reg(
            Register::VF,
            flag(s.reg(x) + s.reg(y) > 255),
        ).advanced(1),
        Instruction::Sub(x, y) => s.with_reg(x, wrap8(s.reg(x) - s.reg(y))).with_reg(
            Register::VF,
            flag(s.reg(x) >= s.reg(y)),
        ).advanced(1),
        Instruction::ShiftRight(x, y) => s.with_reg(x, s.reg(y) / 2).with_reg(
            Register::VF,
            s.reg(y) % 2,
        ).advanced(1),
        Instruction::SubBorrow(x, y) => s.with_reg(x, wrap8(s.reg(y) - s.reg(x))).with_reg(
            Register::VF,
            flag(s.reg(y) >= s.reg(x)),
        ).advanced(1),
        Instruction::ShiftLeft(x, y) => s.with_reg(x, wrap8(s.reg(y) * 2)).with_reg(
            Register::VF,
            s.reg(y) / 128,
        ).advanced(1),
        Instruction::SkipIfNotEqual(x, y) => s.skipping(s.reg(x) != s.reg(y)),
        Instruction::LoadIntoI(address) => s.with_index(address).advanced(1),
        Instruction::JumpV0(address) => s.with_pc(wrap16(address + s.reg(Register::V0))),
        Instruction::Random(x, mask) => s.with_reg(x, random & mask).advanced(1),
        Instruction::SkipIfPressed(x) => s.skipping(s.input.holds(s.reg(x))),
        Instruction::SkipIfNotPressed(x) => s.skipping(!s.input.holds(s.reg(x))),
        Instruction::LoadFromDelay(x) => s.with_reg(x, s.registers.delay).advanced(1),
        Instruction::LoadToDelay(x) => s.with_delay(s.reg(x)).advanced(1),
        Instruction::LoadToSound(x) => s.with_sound(s.reg(x)).advanced(1),
        Instruction::AddToI(x) => s.with_index(wrap16(s.registers.vi + s.reg(x))).advanced(1),
        Instruction::LoadSpriteToI(x) => s.with_index((s.reg(x) * 5) as u16).advanced(1),
        Instruction::LoadBcd(x) => s.with_memory(
            with_bcd(s.memory, s.registers.vi, s.reg(x)),
        ).advanced(1),
        Instruction::LoadToMemory(x) => s.with_memory(
            stored(s.memory, s.registers.vi, s.registers.r, x.spec_index() + 1),
        ).advanced(1),
        Instruction::LoadFromMemory(x) => MachineState {
            registers: RegistersView {
                r: fetched(s.registers.r, s.memory, s.registers.vi, x.spec_index() + 1),
                ..s.registers
            },
            ..s
        }.advanced(1),
        Instruction::Nop => s.advanced(1),
        _ => s,
    }
}

/// The state that an instruction leads to, and how it ends. `random` is the
/// byte that `Random` draws; no other instruction looks at it. Every
/// instruction but `WaitForKey` ends a wait that was going on.
pub open spec fn step(s: MachineState, i: Instruction, random: u8) -> Step {
    match i {
        Instruction::WaitForKey(x) => wait_for_key(s, x),
        Instruction::ClearDisplay => clear_display(s.with_status(KeyWait::Idle)),
        Instruction::ReturnFromSubRoutine => return_from_subroutine(
            s.with_status(KeyWait::Idle),
            s,
        ),
        Instruction::Draw(x, y, n) => draw(s.with_status(KeyWait::Idle), x, y, n),
        _ => Step {
            state: compute(s.with_status(KeyWait::Idle), i, random),
            result: Ok(Outcome::Success),
        },
    }
}

/// One cycle of the machine: the word at the program counter is decoded and
/// the instruction executed.
pub open spec fn cycle_step(s: MachineState, random: u8) -> Step {
    step(s, decode(s.word_at_pc()), random)
}

/// A byte from the thread's random number generator, `rand::thread_rng()`
/// sampled with `Rng::gen::<u8>()`. Nothing is claimed of the byte: it may
/// be any, and differ from call to call.
#[verifier::external_body]
fn random_byte() -> u8 {
    rand::thread_rng().gen::<u8>()
}

/// Sum of two bytes in 8 bits.
fn add8(a: u8, b: u8) -> (sum: u8)
    ensures
        sum == wrap8(a + b),
{
    a.wrapping_add(b)
}

/// Sum of two 16-bit values in 16 bits.
fn add16(a: u16, b: u16) -> (sum: u16)
    ensures
        sum == wrap16(a + b),
{
    a.wrapping_add(b)
}

/// Sum of two bytes in 8 bits, and the carry out of them.
fn add_with_carry(a: u8, b: u8) -> (r: (u8, u8))
    ensures
        r.0 == wrap8(a + b),
        r.1 == flag(a + b > 255),
{
    (a.wrapping_add(b), if a > 255 - b { 1 } else { 0 })
}

/// Difference of two bytes in 8 bits, and 1 where nothing was borrowed.
fn sub_with_borrow(a: u8, b: u8) -> (r: (u8, u8))
    ensures
        r.0 == wrap8(a - b),
        r.1 == flag(a >= b),
{
    (a.wrapping_sub(b), if a >= b { 1 } else { 0 })
}

/// A byte shifted right by one, and the bit that fell out.
fn shift_right(b: u8) -> (r: (u8, u8))
    ensures
        r.0 == b / 2,
        r.1 == b % 2,
{
    assert(b >> 1 == b / 2 && b & 1 == b % 2) by (bit_vector);
    (b >> 1, b & 1)
}

/// A byte shifted left by one in 8 bits, and the bit that fell out.
fn shift_left(b: u8) -> (r: (u8, u8))
    ensures
        r.0 == wrap8(b * 2),
        r.1 == b / 128,
{
    assert(b << 1 == (b * 2) % 0x100 && b >> 7 == b / 128) by (bit_vector);
    (b << 1, b >> 7)
}

impl Chip8 {
    /// A machine with `data` loaded at the start of program memory, the
    /// program counter there, and everything else at rest.
    pub fn new(data: &[u8]) -> (c8: Chip8)
        ensures
            c8@ == MachineState::initial(data@),
    {
        let c8 = Chip8 {
            registers: Registers::default(),
            memory: Ram::init(data),
            controller: Chip8Controller(Controller::new()),
            frame_buffer: [false; 2048],
            status: KeyWait::Idle,
        };
        assert(c8@.frame =~= blank_frame());
        c8
    }

    /// Moves the program counter on by `increments` instructions.
    pub fn increment_pc(&mut self, increments: u16)
        ensures
            final(self)@ == old(self)@.advanced(increments as int),
    {
        self.registers.pc = add16(self.registers.pc, increments.wrapping_mul(2));
    }

    fn read(&self, r: Register) -> (v: u8)
        ensures
            v == self@.reg(r),
    {
        self.registers.r[r.index()]
    }

    fn write(&mut self, r: Register, v: u8)
        ensures
            final(self)@ == old(self)@.with_reg(r, v),
    {
        self.registers.r[r.index()] = v
    }

    fn read_i(&self) -> (v: u16)
        ensures
            v == self@.registers.vi,
    {
        self.registers.vi
    }

    fn write_i(&mut self, v: u16)
        ensures
            final(self)@ == old(self)@.with_index(v),
    {
        self.registers.vi = v
    }

    fn read_delay(&self) -> (v: u8)
        ensures
            v == self@.registers.delay,
    {
        self.registers.delay
    }

    fn write_delay(&mut self, v: u8)
        ensures
            final(self)@ == old(self)@.with_delay(v),
    {
        self.registers.delay = v
    }

    fn write_sound(&mut self, v: u8)
        ensures
            final(self)@ == old(self)@.with_sound(v),
    {
        self.registers.sound = v
    }

    /// One tick of the 60 Hz clock: both timers count down towards zero.
    pub fn tick(&mut self)
        ensures
            final(self)@ == old(self)@.ticked(),
    {
        self.registers.tick();
    }

    /// The instruction word at the program counter.
    pub fn fetch(&self) -> (word: u16)
        ensures
            word == self@.word_at_pc(),
    {
        let high = self.memory.read(self.registers.pc);
        let low = self.memory.read(self.registers.pc.wrapping_add(1));
        let word: u16 = ((high as u16) << 8) | (low as u16);
        assert(word == high * 0x100 + low) by (bit_vector)
            requires
                word == ((high as u16) << 8) | (low as u16),
        ;
        word
    }

    /// The sprite of `n` rows at `I`, placed at `(Vx, Vy)`.
    fn sprite(&self, x: Register, y: Register, n: u8) -> (s: Sprite)
        ensures
            s@ == sprite_in(self@.memory, self@.registers.vi, self@.reg(x), self@.reg(y), n),
            s@.wf(),
    {
        let height: u8 = n % 16;
        let mut data: Vec<u8> = Vec::new();
        let mut k: u8 = 0;
        while k < height
            invariant
                height == n % 16,
                k <= height,
                data@.len() == k,
                forall|j: int|
                    0 <= j < k ==> data@[j] == self@.memory[(self@.registers.vi + j) % 4096],
            decreases height - k,
        {
            data.push(self.memory.read(self.registers.vi.wrapping_add(k as u16)));
            k += 1;
        }
        assert(data@ =~= sprite_in(
            self@.memory,
            self@.registers.vi,
            self@.reg(x),
            self@.reg(y),
            n,
        ).rows);
        Sprite::new(self.read(x), self.read(y), data)
    }

    fn draw(&mut self, x: Register, y: Register, n: u8) -> (r: InstructionResult)
        ensures
            final(self)@ == draw(old(self)@, x, y, n).state,
            Ok::<Outcome, ()>(r@) == draw(old(self)@, x, y, n).result,
    {
        let s = self.sprite(x, y, n);
        let collision = s.draw(&mut self.frame_buffer);
        self.write(Register::VF, if collision { 1 } else { 0 });
        self.increment_pc(1);
        InstructionResult::Display(DisplayCommand::Draw(self.frame_buffer))
    }

    fn wait_for_key(&mut self, x: Register) -> (r: InstructionResult)
        ensures
            final(self)@ == wait_for_key(old(self)@, x).state,
            Ok::<Outcome, ()>(r@) == wait_for_key(old(self)@, x).result,
    {
        let resumed = match self.status {
            KeyWait::Waiting(target) => target == x,
            KeyWait::Idle => false,
        };
        if resumed {
            match self.controller.0.take_last_released() {
                Some(key) => {
                    self.write(x, key.code());
                    self.status = KeyWait::Idle;
                    self.increment_pc(1);
                    InstructionResult::Success
                },
                None => {
                    assert(self@.input =~= old(self)@.input);
                    InstructionResult::Waiting
                },
            }
        } else {
            let _ = self.controller.0.take_last_released();
            self.status = KeyWait::Waiting(x);
            InstructionResult::Waiting
        }
    }

    fn load_bcd(&mut self, x: Register)
        ensures
            final(self)@ == old(self)@.with_memory(
                with_bcd(old(self)@.memory, old(self)@.registers.vi, old(self)@.reg(x)),
            ),
    {
        let i = self.read_i();
        let v = self.read(x);
        self.memory.write(i, v / 100);
        self.memory.write(i.wrapping_add(1), (v % 100) / 10);
        self.memory.write(i.wrapping_add(2), v % 10);
    }

    fn load_to_memory(&mut self, x: Register)
        ensures
            final(self)@ == old(self)@.with_memory(
                stored(
                    old(self)@.memory,
                    old(self)@.registers.vi,
                    old(self)@.registers.r,
                    x.spec_index() + 1,
                ),
            ),
    {
        let i = self.read_i();
        let last = x.index();
        let mut k: usize = 0;
        assert(self@.memory =~= stored(self@.memory, i, self@.registers.r, 0));
        while k <= last
            invariant
                last < 16,
                k <= last + 1,
                i == old(self)@.registers.vi,
                self@ == old(self)@.with_memory(
                    stored(old(self)@.memory, i, old(self)@.registers.r, k as int),
                ),
            decreases last + 1 - k,
        {
            let value = self.registers.r[k];
            self.memory.write(i.wrapping_add(k as u16), value);
            assert(self@.memory =~= stored(
                old(self)@.memory,
                i,
                old(self)@.registers.r,
                k + 1,
            ));
            k += 1;
        }
    }

    fn load_from_memory(&mut self, x: Register)
        ensures
            final(self)@ == (MachineState {
                registers: RegistersView {
                    r: fetched(
                        old(self)@.registers.r,
                        old(self)@.memory,
                        old(self)@.registers.vi,
                        x.spec_index() + 1,
                    ),
                    ..old(self)@.registers
                },
                ..old(self)@
            }),
    {
        let i = self.read_i();
        let last = x.index();
        let mut k: usize = 0;
        assert(self@.registers.r =~= fetched(self@.registers.r, self@.memory, i, 0));
        while k <= last
            invariant
                last < 16,
                k <= last + 1,
                i == old(self)@.registers.vi,
                self@ == (MachineState {
                    registers: RegistersView {
                        r: fetched(old(self)@.registers.r, old(self)@.memory, i, k as int),
                        ..old(self)@.registers
                    },
                    ..old(self)@
                }),
            decreases last + 1 - k,
        {
            let value = self.memory.read(i.wrapping_add(k as u16));
            self.registers.r[k] = value;
            assert(self@.registers.r =~= fetched(
                old(self)@.registers.r,
                old(self)@.memory,
                i,
                k + 1,
            ));
            k += 1;
        }
    }

    /// Executes one instruction, with `random` as the byte that `Random`
    /// draws.
    pub fn execute(&mut self, i: Instruction, random: u8) -> (r: Result<InstructionResult, ()>)
        ensures
            final(self)@ == step(old(self)@, i, random).state,
            outcome_of(r) == step(old(self)@, i, random).result,
    {
        if let Instruction::WaitForKey(x) = i {
            return Ok(self.wait_for_key(x));
        }
        if let Instruction::ReturnFromSubRoutine = i {
            return match self.registers.stack.pop() {
                Some(addr) => {
                    self.registers.pc = addr;
                    self.status = KeyWait::Idle;
                    Ok(InstructionResult::Success)
                },
                None => Err(()),
            };
        }
        self.status = KeyWait::Idle;
        match i {
            Instruction::ClearDisplay => {
                self.increment_pc(1);
                self.frame_buffer = [false; 2048];
                assert(self@.frame =~= blank_frame());
                Ok(InstructionResult::Display(DisplayCommand::ClearDisplay))
            },
            Instruction::Draw(x, y, l) => Ok(self.draw(x, y, l)),
            _ => {
                self.run_arithmetic(i, random);
                Ok(InstructionResult::Success)
            },
        }
    }

    /// Moves on to the next instruction, or past it if `skip` holds.
    fn skip_when(&mut self, skip: bool)
        ensures
            final(self)@ == old(self)@.skipping(skip),
    {
        self.increment_pc(if skip { 2 } else { 1 });
    }

    /// Sets `Vx` and moves on.
    fn set(&mut self, x: Register, v: u8)
        ensures
            final(self)@ == old(self)@.with_reg(x, v).advanced(1),
    {
        self.write(x, v);
        self.increment_pc(1);
    }

    /// Sets `Vx`, then `VF`, and moves on.
    fn set_with_flag(&mut self, x: Register, v: u8, f: u8)
        ensures
            final(self)@ == old(self)@.with_reg(x, v).with_reg(Register::VF, f).advanced(1),
    {
        self.write(x, v);
        self.write(Register::VF, f);
        self.increment_pc(1);
    }

    /// Sets `I` and moves on.
    fn set_index(&mut self, v: u16)
        ensures
            final(self)@ == old(self)@.with_index(v).advanced(1),
    {
        self.write_i(v);
        self.increment_pc(1);
    }

    /// Sets the program counter.
    fn jump(&mut self, address: u16)
        ensures
            final(self)@ == old(self)@.with_pc(address),
    {
        self.registers.pc = address;
    }

    fn call(&mut self, address: u16)
        ensures
            final(self)@ == call(old(self)@, address),
    {
        self.increment_pc(1);
        self.registers.stack.push(self.registers.pc);
        self.registers.pc = address;
    }

    /// The instructions that set one register.
    fn run_arithmetic(&mut self, i: Instruction, random: u8)
        ensures
            final(self)@ == compute(old(self)@, i, random),
    {
        reveal(compute);
        match i {
            Instruction::LoadInto(x, v) => self.set(x, v),
            Instruction::Add(x, v) => self.set(x, add8(self.read(x), v)),
            Instruction::LoadIntoRegister(x, y) => self.set(x, self.read(y)),
            Instruction::Or(x, y) => self.set(x, self.read(x) | self.read(y)),
            Instruction::And(x, y) => self.set(x, self.read(x) & self.read(y)),
            Instruction::Xor(x, y) => self.set(x, self.read(x) ^ self.read(y)),
            Instruction::Random(x, v) => self.set(x, random & v),
            Instruction::LoadFromDelay(x) => self.set(x, self.read_delay()),
            _ => self.run_flagged(i, random),
        }
    }

    /// The instructions that set a register and the flag.
    fn run_flagged(&mut self, i: Instruction, random: u8)
        requires
            !(i is LoadInto || i is Add || i is LoadIntoRegister || i is Or || i is And || i is Xor
                || i is Random || i is LoadFromDelay),
        ensures
            final(self)@ == compute(old(self)@, i, random),
    {
        reveal(compute);
        match i {
            Instruction::AddRegisters(x, y) => {
                let (sum, carry) = add_with_carry(self.read(x), self.read(y));
                self.set_with_flag(x, sum, carry);
            },
            Instruction::Sub(x, y) => {
                let (difference, kept) = sub_with_borrow(self.read(x), self.read(y));
                self.set_with_flag(x, difference, kept);
            },
            Instruction::ShiftRight(x, y) => {
                let (shifted, out) = shift_right(self.read(y));
                self.set_with_flag(x, shifted, out);
            },
            Instruction::SubBorrow(x, y) => {
                let (difference, kept) = sub_with_borrow(self.read(y), self.read(x));
                self.set_with_flag(x, difference, kept);
            },
            Instruction::ShiftLeft(x, y) => {
                let (shifted, out) = shift_left(self.read(y));
                self.set_with_flag(x, shifted, out);
            },
            _ => self.run_flow(i, random),
        }
    }

    /// Jumps, calls and skips.
    fn run_flow(&mut self, i: Instruction, random: u8)
        requires
            !(i is LoadInto || i is Add || i is LoadIntoRegister || i is Or || i is And || i is Xor
                || i is Random || i is LoadFromDelay || i is AddRegisters || i is Sub
                || i is ShiftRight || i is SubBorrow || i is ShiftLeft),
        ensures
            final(self)@ == compute(old(self)@, i, random),
    {
        reveal(compute);
        match i {
            Instruction::JumpTo(addr) => self.jump(addr),
            Instruction::Call(addr) => self.call(addr),
            Instruction::SkipIf(x, v) => self.skip_when(self.read(x) == v),
            Instruction::SkipIfNot(x, v) => self.skip_when(self.read(x) != v),
            Instruction::SkipIfRegistersEqual(x, y) => self.skip_when(self.read(x) == self.read(y)),
            Instruction::SkipIfNotEqual(x, y) => self.skip_when(self.read(x) != self.read(y)),
            Instruction::JumpV0(addr) => self.jump(add16(addr, self.read(Register::V0) as u16)),
            Instruction::SkipIfPressed(x) => self.skip_when(self.controller.holds(self.read(x))),
            Instruction::SkipIfNotPressed(x) => self.skip_when(
                !self.controller.holds(self.read(x)),
            ),
            _ => self.run_memory(i, random),
        }
    }

    /// Timers, the index register and memory.
    fn run_memory(&mut self, i: Instruction, random: u8)
        requires
            !(i is LoadInto || i is Add || i is LoadIntoRegister || i is Or || i is And || i is Xor
                || i is Random || i is LoadFromDelay || i is AddRegisters || i is Sub
                || i is ShiftRight || i is SubBorrow || i is ShiftLeft || i is JumpTo || i is Call
                || i is SkipIf || i is SkipIfNot || i is SkipIfRegistersEqual
                || i is SkipIfNotEqual || i is JumpV0 || i is SkipIfPressed
                || i is SkipIfNotPressed),
        ensures
            final(self)@ == compute(old(self)@, i, random),
    {
        reveal(compute);
        match i {
            Instruction::LoadIntoI(addr) => self.set_index(addr),
            Instruction::LoadToDelay(x) => {
                self.write_delay(self.read(x));
                self.increment_pc(1);
            },
            Instruction::LoadToSound(x) => {
                self.write_sound(self.read(x));
                self.increment_pc(1);
            },
            Instruction::AddToI(x) => self.set_index(add16(self.read_i(), self.read(x) as u16)),
            Instruction::LoadSpriteToI(x) => self.set_index(self.read(x) as u16 * 5),
            Instruction::LoadBcd(x) => {
                self.load_bcd(x);
                self.increment_pc(1);
            },
            Instruction::LoadToMemory(x) => {
                self.load_to_memory(x);
                self.increment_pc(1);
            },
            Instruction::LoadFromMemory(x) => {
                self.load_from_memory(x);
                self.increment_pc(1);
            },
            Instruction::Nop => self.increment_pc(1),
            _ => {},
        }
    }

    /// Executes one instruction. `Random` draws its byte from the thread's
    /// random number generator, so two runs from one state may differ in
    /// that byte and in nothing else.
    pub fn run_instruction(&mut self, i: Instruction) -> (r: Result<InstructionResult, ()>)
        ensures
            exists|random: u8|
                final(self)@ == (#[trigger] step(old(self)@, i, random)).state && outcome_of(r)
                    == step(old(self)@, i, random).result,
            !(i is Random) ==> final(self)@ == step(old(self)@, i, 0).state && outcome_of(r)
                == step(old(self)@, i, 0).result,
    {
        let random = match i {
            Instruction::Random(_, _) => random_byte(),
            _ => 0,
        };
        self.execute(i, random)
    }

    /// One cycle: fetches the word at the program counter, decodes it and
    /// executes the instruction.
    pub fn cycle(&mut self) -> (r: Result<InstructionResult, ()>)
        ensures
            exists|random: u8|
                final(self)@ == (#[trigger] cycle_step(old(self)@, random)).state && outcome_of(r)
                    == cycle_step(old(self)@, random).result,
            !(decode(old(self)@.word_at_pc()) is Random) ==> final(self)@ == cycle_step(
                old(self)@,
                0,
            ).state && outcome_of(r) == cycle_step(old(self)@, 0).result,
    {
        let ghost before = self@;
        let i = parse_opcode(self.fetch());
        let r = self.run_instruction(i);
        proof {
            let random = choose|random: u8|
                self@ == (#[trigger] step(before, i, random)).state && outcome_of(r) == step(
                    before,
                    i,
                    random,
                ).result;
            assert(cycle_step(before, random) == step(before, i, random));
        }
        r
    }
}

} // verus!
