//! The addressable byte space and the call stack.
//!
//! The bottom 80 bytes hold the built-in font; programs are loaded at
//! `ROM_BASE` and execution starts there. Every byte access masks the
//! address to the 4096-byte space, so out-of-range access is impossible
//! by construction.

use crate::font::{font_seq, font_table};
use vstd::prelude::*;

verus! {

/// Size of the addressable byte space.
pub const MEM_SIZE: usize = 4096;

/// Address at which a loaded program begins.
pub const ROM_BASE: usize = 512;

/// Number of return-address slots.
pub const STACK_SIZE: usize = 16;

/// The one load-time failure: the program does not fit between
/// `ROM_BASE` and the end of the address space.
#[derive(Clone, Copy, Debug, PartialEq, Eq, Structural)]
pub enum LoadError {
    TooLarge,
}

pub struct Memory {
    /// The 4096-byte address space.
    pub ram: Vec<u8>,
    /// Return addresses; slot 0 is never written by a push, and popping
    /// an empty stack reads it.
    pub stack: Vec<u16>,
    /// Index of the current top-of-stack slot; 0 means empty.
    pub sp: u8,
}

impl Memory {
    /// Well-formedness: fixed sizes, stack pointer in range, and every
    /// stacked address inside the address space.
    pub open spec fn wf(self) -> bool {
        &&& self.ram@.len() == MEM_SIZE
        &&& self.stack@.len() == STACK_SIZE
        &&& self.sp < STACK_SIZE
        &&& forall|k: int| 0 <= k < STACK_SIZE ==> self.stack@[k] < MEM_SIZE
    }

    /// A fresh address space: the font in the first 80 bytes, zeroes
    /// elsewhere, and an empty stack.
    pub fn new() -> (m: Memory)
        ensures
            m.wf(),
            forall|a: int| 0 <= a < 80 ==> m.ram@[a] == font_seq()[a],
            forall|a: int| 80 <= a < MEM_SIZE ==> m.ram@[a] == 0,
            forall|k: int| 0 <= k < STACK_SIZE ==> m.stack@[k] == 0,
            m.sp == 0,
    {
        let mut ram = font_table();
        while ram.len() < MEM_SIZE
            invariant
                80 <= ram@.len() <= MEM_SIZE,
                forall|a: int| 0 <= a < 80 ==> ram@[a] == font_seq()[a],
                forall|a: int| 80 <= a < ram@.len() ==> ram@[a] == 0,
            decreases MEM_SIZE - ram@.len(),
        {
            ram.push(0);
        }
        let mut stack: Vec<u16> = Vec::new();
        while stack.len() < STACK_SIZE
            invariant
                stack@.len() <= STACK_SIZE,
                forall|k: int| 0 <= k < stack@.len() ==> stack@[k] == 0,
            decreases STACK_SIZE - stack@.len(),
        {
            stack.push(0);
        }
        Memory { ram, stack, sp: 0 }
    }

    /// Copies a program into the address space starting at `ROM_BASE`.
    /// Succeeds exactly when the program fits in the remaining capacity;
    /// on failure nothing changes.
    pub fn load(&mut self, rom: &[u8]) -> (r: Result<(), LoadError>)
        requires
            old(self).wf(),
        ensures
            final(self).wf(),
            final(self).stack@ == old(self).stack@,
            final(self).sp == old(self).sp,
            rom@.len() <= MEM_SIZE - ROM_BASE ==> {
                &&& r is Ok
                &&& forall|a: int|
                    0 <= a < MEM_SIZE ==> final(self).ram@[a] == (if ROM_BASE <= a
                        < ROM_BASE + rom@.len() {
                        rom@[a - ROM_BASE]
                    } else {
                        old(self).ram@[a]
                    })
            },
            rom@.len() > MEM_SIZE - ROM_BASE ==> {
                &&& r == Err::<(), LoadError>(LoadError::TooLarge)
                &&& final(self).ram@ == old(self).ram@
            },
    {
        if rom.len() > MEM_SIZE - ROM_BASE {
            return Err(LoadError::TooLarge);
        }
        let mut k: usize = 0;
        while k < rom.len()
            invariant
                old(self).wf(),
                self.wf(),
                self.stack@ == old(self).stack@,
                self.sp == old(self).sp,
                rom@.len() <= MEM_SIZE - ROM_BASE,
                k <= rom@.len(),
                forall|a: int|
                    0 <= a < MEM_SIZE ==> self.ram@[a] == (if ROM_BASE <= a < ROM_BASE + k {
                        rom@[a - ROM_BASE]
                    } else {
                        old(self).ram@[a]
                    }),
            decreases rom@.len() - k,
        {
            self.ram.set(ROM_BASE + k, rom[k]);
            k = k + 1;
        }
        Ok(())
    }

    /// Reads the byte at `addr`, masked into the address space.
    pub fn read_byte(&self, addr: u16) -> (b: u8)
        requires
            self.wf(),
        ensures
            b == self.ram@[addr as int % MEM_SIZE as int],
    {
        self.ram[addr as usize % MEM_SIZE]
    }

    /// Writes the byte at `addr`, masked into the address space.
    pub fn write_byte(&mut self, addr: u16, value: u8)
        requires
            old(self).wf(),
        ensures
            final(self).wf(),
            final(self).ram@ == old(self).ram@.update(addr as int % MEM_SIZE as int, value),
            final(self).stack@ == old(self).stack@,
            final(self).sp == old(self).sp,
    {
        self.ram.set(addr as usize % MEM_SIZE, value);
    }

    /// Pushes a return address. When all slots above the bottom are in
    /// use the push is dropped: overflow is clamped rather than trapped,
    /// a deliberate policy for a condition the original hardware left
    /// undefined.
    pub fn push_return(&mut self, addr: u16)
        requires
            old(self).wf(),
            addr < MEM_SIZE,
        ensures
            final(self).wf(),
            final(self).ram@ == old(self).ram@,
            old(self).sp < STACK_SIZE - 1 ==> {
                &&& final(self).sp == old(self).sp + 1
                &&& final(self).stack@ == old(self).stack@.update(old(self).sp as int + 1, addr)
            },
            old(self).sp == STACK_SIZE - 1 ==> {
                &&& final(self).sp == old(self).sp
                &&& final(self).stack@ == old(self).stack@
            },
    {
        if self.sp < (STACK_SIZE - 1) as u8 {
            self.sp = self.sp + 1;
            self.stack.set(self.sp as usize, addr);
        }
    }

    /// Pops a return address: hands back the top slot and moves the
    /// stack pointer down, clamped at the bottom (popping an empty stack
    /// re-reads slot 0 and leaves the pointer at 0).
    pub fn pop_return(&mut self) -> (addr: u16)
        requires
            old(self).wf(),
        ensures
            final(self).wf(),
            final(self).ram@ == old(self).ram@,
            final(self).stack@ == old(self).stack@,
            addr == old(self).stack@[old(self).sp as int],
            addr < MEM_SIZE,
            final(self).sp == (if old(self).sp > 0 {
                old(self).sp - 1
            } else {
                0
            }),
    {
        let addr = self.stack[self.sp as usize];
        if self.sp > 0 {
            self.sp = self.sp - 1;
        }
        addr
    }
}

} // verus!
