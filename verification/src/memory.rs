//! The 4 KiB address space and the register file.

use vstd::prelude::*;

verus! {

/// Number of addressable bytes.
pub const MEMORY_SIZE: usize = 4096;

/// Address at which programs are loaded and at which execution starts.
pub const PROGRAM_START: u16 = 0x200;

/// Reduces a 16-bit value to an address inside the 4 KiB space.
pub open spec fn wrap_address(a: int) -> int {
    a % 4096
}

/// What memory `mem` holds once `rom` has been copied to it from
/// `PROGRAM_START` on. Bytes of `rom` that would fall behind the last
/// address are not written.
pub open spec fn loaded(mem: Seq<u8>, rom: Seq<u8>) -> Seq<u8> {
    Seq::new(
        mem.len(),
        |a: int|
            if 0x200 <= a < 0x200 + rom.len() {
                rom[a - 0x200]
            } else {
                mem[a]
            },
    )
}

/// The register file.
pub struct Registers {
    /// General registers `V0` to `VF`.
    pub r: [u8; 16],
    /// Index register `I`.
    pub vi: u16,
    /// Delay timer.
    pub delay: u8,
    /// Sound timer.
    pub sound: u8,
    /// Program counter.
    pub pc: u16,
    /// Return addresses, the most recent call last.
    pub stack: Vec<u16>,
}

/// Mathematical model of the register file.
pub struct RegistersView {
    pub r: Seq<u8>,
    pub vi: u16,
    pub delay: u8,
    pub sound: u8,
    pub pc: u16,
    pub stack: Seq<u16>,
}

impl RegistersView {
    /// The register file of a machine that has just been switched on.
    pub open spec fn initial() -> RegistersView {
        RegistersView {
            r: Seq::new(16, |i: int| 0u8),
            vi: 0,
            delay: 0,
            sound: 0,
            pc: 0x200,
            stack: Seq::empty(),
        }
    }

    /// The register file after one tick of the 60 Hz clock: both timers
    /// count down by one and stay at zero once they reach it.
    pub open spec fn ticked(self) -> RegistersView {
        RegistersView {
            delay: if self.delay > 0 { (self.delay - 1) as u8 } else { 0 },
            sound: if self.sound > 0 { (self.sound - 1) as u8 } else { 0 },
            ..self
        }
    }
}

impl View for Registers {
    type V = RegistersView;

    open spec fn view(&self) -> RegistersView {
        RegistersView {
            r: self.r@,
            vi: self.vi,
            delay: self.delay,
            sound: self.sound,
            pc: self.pc,
            stack: self.stack@,
        }
    }
}

impl Default for Registers {
    fn default() -> (r: Self)
        ensures
            r@ == RegistersView::initial(),
    {
        let r = Registers {
            r: [0; 16],
            vi: 0,
            delay: 0,
            sound: 0,
            pc: PROGRAM_START,
            stack: Vec::new(),
        };
        assert(r@.r =~= RegistersView::initial().r);
        r
    }
}

impl Registers {
    /// One tick of the timer clock.
    pub fn tick(&mut self)
        ensures
            final(self)@ == old(self)@.ticked(),
    {
        if self.delay > 0 {
            self.delay = self.delay - 1;
        }
        if self.sound > 0 {
            self.sound = self.sound - 1;
        }
    }
}

/// Main memory.
pub struct Ram(pub [u8; 4096]);

impl View for Ram {
    type V = Seq<u8>;

    open spec fn view(&self) -> Seq<u8> {
        self.0@
    }
}

impl Default for Ram {
    fn default() -> (r: Self)
        ensures
            r@ == Seq::new(4096, |a: int| 0u8),
    {
        let r = Ram([0; 4096]);
        assert(r@ =~= Seq::new(4096, |a: int| 0u8));
        r
    }
}

impl Ram {
    /// Memory filled with zeroes and then with `data` from `PROGRAM_START` on.
    pub fn init(data: &[u8]) -> (r: Ram)
        ensures
            r@ == loaded(Seq::new(4096, |a: int| 0u8), data@),
    {
        let mut r = Ram::default();
        r.load(data);
        r
    }

    /// Copies `rom` into memory from `PROGRAM_START` on. What does not fit
    /// below the last address is left out.
    pub fn load(&mut self, rom: &[u8])
        ensures
            final(self)@ == loaded(old(self)@, rom@),
    {
        let room: usize = MEMORY_SIZE - 0x200;
        let n: usize = if rom.len() < room { rom.len() } else { room };
        let mut index: usize = 0;
        while index < n
            invariant
                index <= n,
                n <= rom@.len(),
                n <= 4096 - 0x200,
                n == rom@.len() || n == 4096 - 0x200,
                forall|a: int| 0x200 <= a < 0x200 + index ==> self@[a] == rom@[a - 0x200],
                forall|a: int| 0 <= a < 0x200 || 0x200 + index <= a < 4096 ==> self@[a] == old(self)@[a],
            decreases n - index,
        {
            let ghost before = self@;
            self.0[index + 0x200] = rom[index];
            assert(self@ == before.update(index + 0x200, rom@[index as int]));
            index += 1;
        }
        assert(self@ =~= loaded(old(self)@, rom@));
    }

    /// The byte at `address`, taken modulo the size of memory.
    pub fn read(&self, address: u16) -> (b: u8)
        ensures
            b == self@[wrap_address(address as int)],
    {
        self.0[(address % 4096) as usize]
    }

    /// Stores `value` at `address`, taken modulo the size of memory.
    pub fn write(&mut self, address: u16, value: u8)
        ensures
            final(self)@ == old(self)@.update(wrap_address(address as int), value),
    {
        self.0[(address % 4096) as usize] = value;
    }
}

} // verus!
