//! The instruction interpreter: register file, program counter, timers,
//! and the fetch/decode/execute cycle, one instruction per `step`.
//!
//! Each step reads two bytes at the program counter, combines them
//! big-endian, advances the program counter by two, then dispatches on
//! the decoded instruction; branching instructions adjust the program
//! counter again afterwards. The full effect of a step is pinned down by
//! the transition relation `step_rel`.

use crate::display::{draw_collides, frame_after_draw, Display, NUM_PIXELS};
use crate::keyboard::{first_pressed_from, Keyboard, NUM_KEYS};
use crate::memory::{Memory, MEM_SIZE, STACK_SIZE};
use rand::Rng;
use vstd::prelude::*;

verus! {

/// Number of general-purpose registers; register 15 doubles as the
/// carry/borrow/collision flag.
pub const NUM_REGS: usize = 16;

/// The flag register's index.
pub const FLAG_REG: usize = 15;

/// Address at which execution begins.
pub const START_PC: u16 = 512;

/// Declares rand's thread-local generator type so that a field can hold
/// one; its values are opaque here.
#[verifier::external_type_specification]
#[verifier::external_body]
pub struct ExThreadRng(rand::rngs::ThreadRng);

/// Relies on rand::thread_rng: a handle to the thread-local random
/// number generator.
#[verifier::external_body]
fn fresh_rng() -> rand::rngs::ThreadRng {
    rand::thread_rng()
}

/// Relies on rand::Rng::gen: draws one byte from the generator. Nothing
/// is promised of the value.
#[verifier::external_body]
fn next_random_byte(rng: &mut rand::rngs::ThreadRng) -> u8 {
    rng.gen()
}

/// One decoded instruction. Register operands are 4-bit indices, `u16`
/// payloads are 12-bit addresses, and a word matching no known
/// combination decodes to `Nop`, a deliberate leniency.
#[derive(Clone, Copy, Debug, PartialEq, Eq, Structural)]
pub enum Instruction {
    /// 00E0: blank the display.
    ClearScreen,
    /// 00EE: pop the return address into the program counter.
    Return,
    /// 1nnn: set the program counter.
    Jump(u16),
    /// 2nnn: push the return address, then jump.
    Call(u16),
    /// 3xnn: skip the next instruction if register x equals the byte.
    SkipEqImm(u8, u8),
    /// 4xnn: skip the next instruction if register x differs.
    SkipNeImm(u8, u8),
    /// 5xy0: skip if registers x and y are equal.
    SkipEqReg(u8, u8),
    /// 6xnn: register x = byte.
    SetImm(u8, u8),
    /// 7xnn: register x += byte, wrapping, flag untouched.
    AddImm(u8, u8),
    /// 8xy0: register x = register y.
    CopyReg(u8, u8),
    /// 8xy1: register x |= register y.
    OrReg(u8, u8),
    /// 8xy2: register x &= register y.
    AndReg(u8, u8),
    /// 8xy3: register x ^= register y.
    XorReg(u8, u8),
    /// 8xy4: register x += register y; flag = 1 on unsigned overflow.
    AddReg(u8, u8),
    /// 8xy5: register x -= register y; flag = 1 when no borrow.
    SubReg(u8, u8),
    /// 8xy6: flag = low bit of register x; register x >>= 1.
    ShiftRight(u8),
    /// 8xy7: register x = register y - register x; flag = 1 when no borrow.
    SubFrom(u8, u8),
    /// 8xyE: flag = high bit of register x; register x <<= 1, wrapping.
    ShiftLeft(u8),
    /// 9xy0: skip if registers x and y differ.
    SkipNeReg(u8, u8),
    /// Annn: address register = nnn.
    SetIndex(u16),
    /// Bnnn: jump to nnn + register 0.
    JumpPlusV0(u16),
    /// Cxnn: register x = random byte AND the mask byte.
    Random(u8, u8),
    /// Dxyn: draw an n-row sprite from the address register at
    /// (register x, register y); flag = collision.
    Draw(u8, u8, u8),
    /// Ex9E: skip if the key named by register x is down.
    SkipKey(u8),
    /// ExA1: skip if the key named by register x is up.
    SkipNoKey(u8),
    /// Fx07: register x = delay timer.
    GetDelay(u8),
    /// Fx0A: wait for a key by re-fetching until one is down, then
    /// store its index in register x.
    WaitKey(u8),
    /// Fx15: delay timer = register x.
    SetDelay(u8),
    /// Fx18: sound timer = register x.
    SetSound(u8),
    /// Fx1E: address register += register x, masked, no flag.
    AddIndex(u8),
    /// Fx29: address register = five times the digit in register x.
    FontIndex(u8),
    /// Fx33: write the decimal digits of register x at the address
    /// register.
    StoreBcd(u8),
    /// Fx55: copy registers 0..=x to memory at the address register.
    StoreRegs(u8),
    /// Fx65: load registers 0..=x from memory at the address register.
    LoadRegs(u8),
    /// Any unknown word: no effect beyond the ordinary advance.
    Nop,
}

/// Decoding of a big-endian instruction word: the top nibble selects a
/// class, and classes 0, 8, E and F route further on a low sub-field.
pub open spec fn spec_decode(hi: u8, lo: u8) -> Instruction {
    let c = hi / 16;
    let x = hi % 16;
    let y = lo / 16;
    let n = lo % 16;
    let nnn = ((x * 256) + lo) as u16;
    if c == 0 {
        if hi == 0 && lo == 0xe0 {
            Instruction::ClearScreen
        } else if hi == 0 && lo == 0xee {
            Instruction::Return
        } else {
            Instruction::Nop
        }
    } else if c == 1 {
        Instruction::Jump(nnn)
    } else if c == 2 {
        Instruction::Call(nnn)
    } else if c == 3 {
        Instruction::SkipEqImm(x, lo)
    } else if c == 4 {
        Instruction::SkipNeImm(x, lo)
    } else if c == 5 {
        Instruction::SkipEqReg(x, y)
    } else if c == 6 {
        Instruction::SetImm(x, lo)
    } else if c == 7 {
        Instruction::AddImm(x, lo)
    } else if c == 8 {
        if n == 0 {
            Instruction::CopyReg(x, y)
        } else if n == 1 {
            Instruction::OrReg(x, y)
        } else if n == 2 {
            Instruction::AndReg(x, y)
        } else if n == 3 {
            Instruction::XorReg(x, y)
        } else if n == 4 {
            Instruction::AddReg(x, y)
        } else if n == 5 {
            Instruction::SubReg(x, y)
        } else if n == 6 {
            Instruction::ShiftRight(x)
        } else if n == 7 {
            Instruction::SubFrom(x, y)
        } else if n == 14 {
            Instruction::ShiftLeft(x)
        } else {
            Instruction::Nop
        }
    } else if c == 9 {
        Instruction::SkipNeReg(x, y)
    } else if c == 10 {
        Instruction::SetIndex(nnn)
    } else if c == 11 {
        Instruction::JumpPlusV0(nnn)
    } else if c == 12 {
        Instruction::Random(x, lo)
    } else if c == 13 {
        Instruction::Draw(x, y, n)
    } else if c == 14 {
        if lo == 0x9e {
            Instruction::SkipKey(x)
        } else if lo == 0xa1 {
            Instruction::SkipNoKey(x)
        } else {
            Instruction::Nop
        }
    } else {
        if lo == 0x07 {
            Instruction::GetDelay(x)
        } else if lo == 0x0a {
            Instruction::WaitKey(x)
        } else if lo == 0x15 {
            Instruction::SetDelay(x)
        } else if lo == 0x18 {
            Instruction::SetSound(x)
        } else if lo == 0x1e {
            Instruction::AddIndex(x)
        } else if lo == 0x29 {
            Instruction::FontIndex(x)
        } else if lo == 0x33 {
            Instruction::StoreBcd(x)
        } else if lo == 0x55 {
            Instruction::StoreRegs(x)
        } else if lo == 0x65 {
            Instruction::LoadRegs(x)
        } else {
            Instruction::Nop
        }
    }
}

/// Bounds that every decoded instruction obeys: register indices below
/// 16, nibbles below 16, addresses below 4096.
pub open spec fn fields_bounded(inst: Instruction) -> bool {
    match inst {
        Instruction::Jump(nnn) => nnn < MEM_SIZE,
        Instruction::Call(nnn) => nnn < MEM_SIZE,
        Instruction::SkipEqImm(x, _) => x < NUM_REGS,
        Instruction::SkipNeImm(x, _) => x < NUM_REGS,
        Instruction::SkipEqReg(x, y) => x < NUM_REGS && y < NUM_REGS,
        Instruction::SetImm(x, _) => x < NUM_REGS,
        Instruction::AddImm(x, _) => x < NUM_REGS,
        Instruction::CopyReg(x, y) => x < NUM_REGS && y < NUM_REGS,
        Instruction::OrReg(x, y) => x < NUM_REGS && y < NUM_REGS,
        Instruction::AndReg(x, y) => x < NUM_REGS && y < NUM_REGS,
        Instruction::XorReg(x, y) => x < NUM_REGS && y < NUM_REGS,
        Instruction::AddReg(x, y) => x < NUM_REGS && y < NUM_REGS,
        Instruction::SubReg(x, y) => x < NUM_REGS && y < NUM_REGS,
        Instruction::ShiftRight(x) => x < NUM_REGS,
        Instruction::SubFrom(x, y) => x < NUM_REGS && y < NUM_REGS,
        Instruction::ShiftLeft(x) => x < NUM_REGS,
        Instruction::SkipNeReg(x, y) => x < NUM_REGS && y < NUM_REGS,
        Instruction::SetIndex(nnn) => nnn < MEM_SIZE,
        Instruction::JumpPlusV0(nnn) => nnn < MEM_SIZE,
        Instruction::Random(x, _) => x < NUM_REGS,
        Instruction::Draw(x, y, n) => x < NUM_REGS && y < NUM_REGS && n < 16,
        Instruction::SkipKey(x) => x < NUM_REGS,
        Instruction::SkipNoKey(x) => x < NUM_REGS,
        Instruction::GetDelay(x) => x < NUM_REGS,
        Instruction::WaitKey(x) => x < NUM_REGS,
        Instruction::SetDelay(x) => x < NUM_REGS,
        Instruction::SetSound(x) => x < NUM_REGS,
        Instruction::AddIndex(x) => x < NUM_REGS,
        Instruction::FontIndex(x) => x < NUM_REGS,
        Instruction::StoreBcd(x) => x < NUM_REGS,
        Instruction::StoreRegs(x) => x < NUM_REGS,
        Instruction::LoadRegs(x) => x < NUM_REGS,
        _ => true,
    }
}

/// Decodes a big-endian instruction word.
pub fn decode(hi: u8, lo: u8) -> (inst: Instruction)
    ensures
        inst == spec_decode(hi, lo),
        fields_bounded(inst),
{
    let c = hi / 16;
    let x = hi % 16;
    let y = lo / 16;
    let n = lo % 16;
    let nnn = (x as u16) * 256 + lo as u16;
    if c == 0 {
        if hi == 0 && lo == 0xe0 {
            Instruction::ClearScreen
        } else if hi == 0 && lo == 0xee {
            Instruction::Return
        } else {
            Instruction::Nop
        }
    } else if c == 1 {
        Instruction::Jump(nnn)
    } else if c == 2 {
        Instruction::Call(nnn)
    } else if c == 3 {
        Instruction::SkipEqImm(x, lo)
    } else if c == 4 {
        Instruction::SkipNeImm(x, lo)
    } else if c == 5 {
        Instruction::SkipEqReg(x, y)
    } else if c == 6 {
        Instruction::SetImm(x, lo)
    } else if c == 7 {
        Instruction::AddImm(x, lo)
    } else if c == 8 {
        if n == 0 {
            Instruction::CopyReg(x, y)
        } else if n == 1 {
            Instruction::OrReg(x, y)
        } else if n == 2 {
            Instruction::AndReg(x, y)
        } else if n == 3 {
            Instruction::XorReg(x, y)
        } else if n == 4 {
            Instruction::AddReg(x, y)
        } else if n == 5 {
            Instruction::SubReg(x, y)
        } else if n == 6 {
            Instruction::ShiftRight(x)
        } else if n == 7 {
            Instruction::SubFrom(x, y)
        } else if n == 14 {
            Instruction::ShiftLeft(x)
        } else {
            Instruction::Nop
        }
    } else if c == 9 {
        Instruction::SkipNeReg(x, y)
    } else if c == 10 {
        Instruction::SetIndex(nnn)
    } else if c == 11 {
        Instruction::JumpPlusV0(nnn)
    } else if c == 12 {
        Instruction::Random(x, lo)
    } else if c == 13 {
        Instruction::Draw(x, y, n)
    } else if c == 14 {
        if lo == 0x9e {
            Instruction::SkipKey(x)
        } else if lo == 0xa1 {
            Instruction::SkipNoKey(x)
        } else {
            Instruction::Nop
        }
    } else {
        if lo == 0x07 {
            Instruction::GetDelay(x)
        } else if lo == 0x0a {
            Instruction::WaitKey(x)
        } else if lo == 0x15 {
            Instruction::SetDelay(x)
        } else if lo == 0x18 {
            Instruction::SetSound(x)
        } else if lo == 0x1e {
            Instruction::AddIndex(x)
        } else if lo == 0x29 {
            Instruction::FontIndex(x)
        } else if lo == 0x33 {
            Instruction::StoreBcd(x)
        } else if lo == 0x55 {
            Instruction::StoreRegs(x)
        } else if lo == 0x65 {
            Instruction::LoadRegs(x)
        } else {
            Instruction::Nop
        }
    }
}

/// The program counter after the ordinary two-byte advance.
pub open spec fn next_pc(pc: u16) -> u16 {
    ((pc as int + 2) % MEM_SIZE as int) as u16
}

/// The address space after registers 0..count have been copied in at
/// `base`, each address masked.
pub open spec fn mem_after_store(ram: Seq<u8>, base: int, v: Seq<u8>, count: int) -> Seq<u8>
    decreases count,
{
    if count <= 0 {
        ram
    } else {
        mem_after_store(ram, base, v, count - 1).update(
            (base + count - 1) % MEM_SIZE as int,
            v[count - 1],
        )
    }
}

/// The register file after registers 0..count have been filled from
/// memory at `base`, each address masked.
pub open spec fn regs_after_load(v: Seq<u8>, ram: Seq<u8>, base: int, count: int) -> Seq<u8>
    decreases count,
{
    if count <= 0 {
        v
    } else {
        regs_after_load(v, ram, base, count - 1).update(
            count - 1,
            ram[(base + count - 1) % MEM_SIZE as int],
        )
    }
}

pub open spec fn same_regs(a: CPU, b: CPU) -> bool {
    b.v@ == a.v@
}

pub open spec fn same_index(a: CPU, b: CPU) -> bool {
    b.i == a.i
}

pub open spec fn same_timers(a: CPU, b: CPU) -> bool {
    b.dt == a.dt && b.st == a.st
}

pub open spec fn same_ram(a: CPU, b: CPU) -> bool {
    b.memory.ram@ == a.memory.ram@
}

pub open spec fn same_stack(a: CPU, b: CPU) -> bool {
    b.memory.stack@ == a.memory.stack@ && b.memory.sp == a.memory.sp
}

pub open spec fn same_display(a: CPU, b: CPU) -> bool {
    b.display.frame@ == a.display.frame@
}

pub open spec fn same_keys(a: CPU, b: CPU) -> bool {
    b.keyboard.state@ == a.keyboard.state@
}

/// Everything an ordinary register instruction leaves alone: memory,
/// stack, display, keys, timers and the address register.
pub open spec fn same_core(a: CPU, b: CPU) -> bool {
    &&& same_ram(a, b)
    &&& same_stack(a, b)
    &&& same_display(a, b)
    &&& same_keys(a, b)
    &&& same_timers(a, b)
    &&& same_index(a, b)
}

/// The effect of one decoded instruction: how the state after the step
/// relates to the state before it, `pc2` being the ordinarily advanced
/// program counter.
pub open spec fn step_effect(pre: CPU, post: CPU, inst: Instruction, pc2: u16) -> bool {
    match inst {
        Instruction::ClearScreen => {
            &&& same_regs(pre, post)
            &&& same_index(pre, post)
            &&& same_timers(pre, post)
            &&& same_ram(pre, post)
            &&& same_stack(pre, post)
            &&& same_keys(pre, post)
            &&& post.pc == pc2
            &&& post.display.frame@.len() == NUM_PIXELS
            &&& forall|p: int| 0 <= p < NUM_PIXELS ==> !post.display.frame@[p]
        },
        Instruction::Return => {
            &&& same_regs(pre, post)
            &&& same_index(pre, post)
            &&& same_timers(pre, post)
            &&& same_ram(pre, post)
            &&& same_display(pre, post)
            &&& same_keys(pre, post)
            &&& post.pc == pre.memory.stack@[pre.memory.sp as int]
            &&& post.memory.stack@ == pre.memory.stack@
            &&& post.memory.sp == (if pre.memory.sp > 0 {
                pre.memory.sp - 1
            } else {
                0
            })
        },
        Instruction::Jump(nnn) => {
            &&& same_regs(pre, post)
            &&& same_core(pre, post)
            &&& post.pc == nnn
        },
        Instruction::Call(nnn) => {
            &&& same_regs(pre, post)
            &&& same_index(pre, post)
            &&& same_timers(pre, post)
            &&& same_ram(pre, post)
            &&& same_display(pre, post)
            &&& same_keys(pre, post)
            &&& post.pc == nnn
            &&& pre.memory.sp < STACK_SIZE - 1 ==> {
                &&& post.memory.sp == pre.memory.sp + 1
                &&& post.memory.stack@ == pre.memory.stack@.update(
                    pre.memory.sp as int + 1,
                    pc2,
                )
            }
            &&& pre.memory.sp == STACK_SIZE - 1 ==> {
                &&& post.memory.sp == pre.memory.sp
                &&& post.memory.stack@ == pre.memory.stack@
            }
        },
        Instruction::SkipEqImm(x, nn) => {
            &&& same_regs(pre, post)
            &&& same_core(pre, post)
            &&& post.pc == (if pre.v@[x as int] == nn {
                next_pc(pc2)
            } else {
                pc2
            })
        },
        Instruction::SkipNeImm(x, nn) => {
            &&& same_regs(pre, post)
            &&& same_core(pre, post)
            &&& post.pc == (if pre.v@[x as int] != nn {
                next_pc(pc2)
            } else {
                pc2
            })
        },
        Instruction::SkipEqReg(x, y) => {
            &&& same_regs(pre, post)
            &&& same_core(pre, post)
            &&& post.pc == (if pre.v@[x as int] == pre.v@[y as int] {
                next_pc(pc2)
            } else {
                pc2
            })
        },
        Instruction::SetImm(x, nn) => {
            &&& same_core(pre, post)
            &&& post.pc == pc2
            &&& post.v@ == pre.v@.update(x as int, nn)
        },
        Instruction::AddImm(x, nn) => {
            &&& same_core(pre, post)
            &&& post.pc == pc2
            &&& post.v@ == pre.v@.update(x as int, ((pre.v@[x as int] + nn) % 256) as u8)
        },
        Instruction::CopyReg(x, y) => {
            &&& same_core(pre, post)
            &&& post.pc == pc2
            &&& post.v@ == pre.v@.update(x as int, pre.v@[y as int])
        },
        Instruction::OrReg(x, y) => {
            &&& same_core(pre, post)
            &&& post.pc == pc2
            &&& post.v@ == pre.v@.update(x as int, pre.v@[x as int] | pre.v@[y as int])
        },
        Instruction::AndReg(x, y) => {
            &&& same_core(pre, post)
            &&& post.pc == pc2
            &&& post.v@ == pre.v@.update(x as int, pre.v@[x as int] & pre.v@[y as int])
        },
        Instruction::XorReg(x, y) => {
            &&& same_core(pre, post)
            &&& post.pc == pc2
            &&& post.v@ == pre.v@.update(x as int, pre.v@[x as int] ^ pre.v@[y as int])
        },
        Instruction::AddReg(x, y) => {
            let a = pre.v@[x as int];
            let b = pre.v@[y as int];
            let flag: u8 = if a + b > 255 {
                1
            } else {
                0
            };
            &&& same_core(pre, post)
            &&& post.pc == pc2
            &&& post.v@ == pre.v@.update(FLAG_REG as int, flag).update(
                x as int,
                ((a + b) % 256) as u8,
            )
        },
        Instruction::SubReg(x, y) => {
            let a = pre.v@[x as int];
            let b = pre.v@[y as int];
            let flag: u8 = if a >= b {
                1
            } else {
                0
            };
            &&& same_core(pre, post)
            &&& post.pc == pc2
            &&& post.v@ == pre.v@.update(FLAG_REG as int, flag).update(
                x as int,
                ((a - b + 256) % 256) as u8,
            )
        },
        Instruction::ShiftRight(x) => {
            let a = pre.v@[x as int];
            &&& same_core(pre, post)
            &&& post.pc == pc2
            &&& post.v@ == pre.v@.update(FLAG_REG as int, (a % 2) as u8).update(
                x as int,
                (a / 2) as u8,
            )
        },
        Instruction::SubFrom(x, y) => {
            let a = pre.v@[x as int];
            let b = pre.v@[y as int];
            let flag: u8 = if b >= a {
                1
            } else {
                0
            };
            &&& same_core(pre, post)
            &&& post.pc == pc2
            &&& post.v@ == pre.v@.update(FLAG_REG as int, flag).update(
                x as int,
                ((b - a + 256) % 256) as u8,
            )
        },
        Instruction::ShiftLeft(x) => {
            let a = pre.v@[x as int];
            &&& same_core(pre, post)
            &&& post.pc == pc2
            &&& post.v@ == pre.v@.update(FLAG_REG as int, (a / 128) as u8).update(
                x as int,
                ((a * 2) % 256) as u8,
            )
        },
        Instruction::SkipNeReg(x, y) => {
            &&& same_regs(pre, post)
            &&& same_core(pre, post)
            &&& post.pc == (if pre.v@[x as int] != pre.v@[y as int] {
                next_pc(pc2)
            } else {
                pc2
            })
        },
        Instruction::SetIndex(nnn) => {
            &&& same_regs(pre, post)
            &&& same_timers(pre, post)
            &&& same_ram(pre, post)
            &&& same_stack(pre, post)
            &&& same_display(pre, post)
            &&& same_keys(pre, post)
            &&& post.pc == pc2
            &&& post.i == nnn
        },
        Instruction::JumpPlusV0(nnn) => {
            &&& same_regs(pre, post)
            &&& same_core(pre, post)
            &&& post.pc == ((pre.v@[0] + nnn) % MEM_SIZE as int) as u16
        },
        Instruction::Random(x, nn) => {
            &&& same_core(pre, post)
            &&& post.pc == pc2
            &&& exists|r: u8| post.v@ == pre.v@.update(x as int, r & nn)
        },
        Instruction::Draw(x, y, n) => {
            let sx = pre.v@[x as int] as int % 64;
            let sy = pre.v@[y as int] as int % 32;
            let rows = Seq::new(
                n as nat,
                |k: int| pre.memory.ram@[(pre.i + k) % MEM_SIZE as int],
            );
            let col = draw_collides(pre.display.frame@, sx, sy, rows);
            &&& same_index(pre, post)
            &&& same_timers(pre, post)
            &&& same_ram(pre, post)
            &&& same_stack(pre, post)
            &&& same_keys(pre, post)
            &&& post.pc == pc2
            &&& post.display.frame@ == frame_after_draw(pre.display.frame@, sx, sy, rows)
            &&& post.v@ == pre.v@.update(
                FLAG_REG as int,
                if col {
                    1u8
                } else {
                    0u8
                },
            )
        },
        Instruction::SkipKey(x) => {
            &&& same_regs(pre, post)
            &&& same_core(pre, post)
            &&& post.pc == (if pre.keyboard.state@[pre.v@[x as int] as int % 16] {
                next_pc(pc2)
            } else {
                pc2
            })
        },
        Instruction::SkipNoKey(x) => {
            &&& same_regs(pre, post)
            &&& same_core(pre, post)
            &&& post.pc == (if !pre.keyboard.state@[pre.v@[x as int] as int % 16] {
                next_pc(pc2)
            } else {
                pc2
            })
        },
        Instruction::GetDelay(x) => {
            &&& same_core(pre, post)
            &&& post.pc == pc2
            &&& post.v@ == pre.v@.update(x as int, pre.dt)
        },
        Instruction::WaitKey(x) => {
            &&& same_core(pre, post)
            &&& match first_pressed_from(pre.keyboard.state@, 0) {
                Some(k) => {
                    &&& post.v@ == pre.v@.update(x as int, k as u8)
                    &&& post.pc == pc2
                },
                None => {
                    &&& same_regs(pre, post)
                    &&& post.pc == pre.pc
                },
            }
        },
        Instruction::SetDelay(x) => {
            &&& same_regs(pre, post)
            &&& same_index(pre, post)
            &&& same_ram(pre, post)
            &&& same_stack(pre, post)
            &&& same_display(pre, post)
            &&& same_keys(pre, post)
            &&& post.pc == pc2
            &&& post.dt == pre.v@[x as int]
            &&& post.st == pre.st
        },
        Instruction::SetSound(x) => {
            &&& same_regs(pre, post)
            &&& same_index(pre, post)
            &&& same_ram(pre, post)
            &&& same_stack(pre, post)
            &&& same_display(pre, post)
            &&& same_keys(pre, post)
            &&& post.pc == pc2
            &&& post.st == pre.v@[x as int]
            &&& post.dt == pre.dt
        },
        Instruction::AddIndex(x) => {
            &&& same_regs(pre, post)
            &&& same_timers(pre, post)
            &&& same_ram(pre, post)
            &&& same_stack(pre, post)
            &&& same_display(pre, post)
            &&& same_keys(pre, post)
            &&& post.pc == pc2
            &&& post.i == ((pre.i + pre.v@[x as int]) % MEM_SIZE as int) as u16
        },
        Instruction::FontIndex(x) => {
            &&& same_regs(pre, post)
            &&& same_timers(pre, post)
            &&& same_ram(pre, post)
            &&& same_stack(pre, post)
            &&& same_display(pre, post)
            &&& same_keys(pre, post)
            &&& post.pc == pc2
            &&& post.i == pre.v@[x as int] * 5
        },
        Instruction::StoreBcd(x) => {
            let val = pre.v@[x as int];
            &&& same_regs(pre, post)
            &&& same_index(pre, post)
            &&& same_timers(pre, post)
            &&& same_stack(pre, post)
            &&& same_display(pre, post)
            &&& same_keys(pre, post)
            &&& post.pc == pc2
            &&& post.memory.ram@ == pre.memory.ram@.update(
                pre.i as int % MEM_SIZE as int,
                (((val / 100) % 10) as u8),
            ).update((pre.i + 1) % MEM_SIZE as int, (((val / 10) % 10) as u8)).update(
                (pre.i + 2) % MEM_SIZE as int,
                ((val % 10) as u8),
            )
        },
        Instruction::StoreRegs(x) => {
            &&& same_regs(pre, post)
            &&& same_index(pre, post)
            &&& same_timers(pre, post)
            &&& same_stack(pre, post)
            &&& same_display(pre, post)
            &&& same_keys(pre, post)
            &&& post.pc == pc2
            &&& post.memory.ram@ == mem_after_store(
                pre.memory.ram@,
                pre.i as int,
                pre.v@,
                x as int + 1,
            )
        },
        Instruction::LoadRegs(x) => {
            &&& same_index(pre, post)
            &&& same_timers(pre, post)
            &&& same_ram(pre, post)
            &&& same_stack(pre, post)
            &&& same_display(pre, post)
            &&& same_keys(pre, post)
            &&& post.pc == pc2
            &&& post.v@ == regs_after_load(pre.v@, pre.memory.ram@, pre.i as int, x as int + 1)
        },
        Instruction::Nop => {
            &&& same_regs(pre, post)
            &&& same_core(pre, post)
            &&& post.pc == pc2
        },
    }
}

/// The instruction a state is about to execute: the two bytes at the
/// program counter, combined big-endian and decoded.
pub open spec fn fetched(pre: CPU) -> Instruction {
    spec_decode(pre.memory.ram@[pre.pc as int], pre.memory.ram@[(pre.pc + 1) % MEM_SIZE as int])
}

/// The transition relation of one step: fetch the word at the program
/// counter, advance by two, then apply the decoded instruction.
pub open spec fn step_rel(pre: CPU, post: CPU) -> bool {
    step_effect(pre, post, fetched(pre), next_pc(pre.pc))
}

pub struct CPU {
    /// The 16 general-purpose 8-bit registers.
    pub v: Vec<u8>,
    /// The 16-bit address register.
    pub i: u16,
    /// The program counter: address of the next instruction's high byte.
    pub pc: u16,
    /// Delay timer, decremented by the external driver via `tick_timers`.
    pub dt: u8,
    /// Sound timer, decremented by the external driver via `tick_timers`.
    pub st: u8,
    /// Source of bytes for the random-register instruction.
    pub rng: rand::rngs::ThreadRng,
    pub memory: Memory,
    pub display: Display,
    pub keyboard: Keyboard,
}

/// Stepping the program counter forward by two and then back by two
/// (modulo the memory size) lands where it started.
proof fn lemma_pc_back_two(p: u16)
    requires
        p < MEM_SIZE,
    ensures
        ((next_pc(p) - 2 + MEM_SIZE as int) % MEM_SIZE as int) as u16 == p,
{
    let m = MEM_SIZE as int;
    if p + 2 < m {
        vstd::arithmetic::div_mod::lemma_small_mod((p + 2) as nat, m as nat);
        vstd::arithmetic::div_mod::lemma_mod_multiples_vanish(1, p as int, m);
        vstd::arithmetic::div_mod::lemma_small_mod(p as nat, m as nat);
    } else {
        vstd::arithmetic::div_mod::lemma_mod_multiples_vanish(1, p + 2 - m, m);
        vstd::arithmetic::div_mod::lemma_small_mod((p + 2 - m) as nat, m as nat);
        vstd::arithmetic::div_mod::lemma_small_mod(p as nat, m as nat);
    }
}

/// Wrapping 8-bit sum.
fn wrap_add8(a: u8, b: u8) -> (r: u8)
    ensures
        r == (a + b) % 256,
{
    (((a as u16) + (b as u16)) % 256) as u8
}

/// Wrapping 8-bit difference, `(a - b) mod 256` written without a
/// negative intermediate.
fn wrap_sub8(a: u8, b: u8) -> (r: u8)
    ensures
        r == (a - b + 256) % 256,
{
    (((a as u16) + 256 - (b as u16)) % 256) as u8
}

impl CPU {
    /// Well-formedness: fixed register count, program counter and
    /// address register inside the address space, owned parts well
    /// formed.
    pub open spec fn wf(self) -> bool {
        &&& self.v@.len() == NUM_REGS
        &&& self.pc < MEM_SIZE
        &&& self.i < MEM_SIZE
        &&& self.memory.wf()
        &&& self.display.wf()
        &&& self.keyboard.wf()
    }

    /// A freshly reset interpreter: registers, timers and address
    /// register zero, program counter at the start address, cleared
    /// display, no keys down.
    pub fn new() -> (c: CPU)
        ensures
            c.wf(),
            forall|r: int| 0 <= r < NUM_REGS ==> c.v@[r] == 0,
            c.i == 0,
            c.pc == START_PC,
            c.dt == 0,
            c.st == 0,
            forall|a: int| 0 <= a < 80 ==> c.memory.ram@[a] == crate::font::font_seq()[a],
            forall|a: int| 80 <= a < MEM_SIZE ==> c.memory.ram@[a] == 0,
            c.memory.sp == 0,
            forall|k: int| 0 <= k < STACK_SIZE ==> c.memory.stack@[k] == 0,
            forall|p: int| 0 <= p < NUM_PIXELS ==> !c.display.frame@[p],
            forall|k: int| 0 <= k < NUM_KEYS ==> !c.keyboard.state@[k],
    {
        let mut v: Vec<u8> = Vec::new();
        while v.len() < NUM_REGS
            invariant
                v@.len() <= NUM_REGS,
                forall|r: int| 0 <= r < v@.len() ==> v@[r] == 0,
            decreases NUM_REGS - v@.len(),
        {
            v.push(0);
        }
        CPU {
            v,
            i: 0,
            pc: START_PC,
            dt: 0,
            st: 0,
            rng: fresh_rng(),
            memory: Memory::new(),
            display: Display::new(),
            keyboard: Keyboard::new(),
        }
    }

    /// One full fetch/decode/execute cycle.
    pub fn step(&mut self)
        requires
            old(self).wf(),
        ensures
            final(self).wf(),
            step_rel(*old(self), *final(self)),
    {
        let hi = self.memory.read_byte(self.pc);
        let lo = self.memory.read_byte(self.pc + 1);
        let inst = decode(hi, lo);
        proof {
            assert(old(self).pc as int % MEM_SIZE as int == old(self).pc as int);
        }
        self.pc = (self.pc + 2) % (MEM_SIZE as u16);
        match inst {
            Instruction::ClearScreen => self.inst_00e0(),
            Instruction::Return => self.inst_00ee(),
            Instruction::Jump(nnn) => self.inst_1nnn(nnn),
            Instruction::Call(nnn) => self.inst_2nnn(nnn),
            Instruction::SkipEqImm(x, nn) => self.inst_3xnn(x as usize, nn),
            Instruction::SkipNeImm(x, nn) => self.inst_4xnn(x as usize, nn),
            Instruction::SkipEqReg(x, y) => self.inst_5xy0(x as usize, y as usize),
            Instruction::SetImm(x, nn) => self.inst_6xnn(x as usize, nn),
            Instruction::AddImm(x, nn) => self.inst_7xnn(x as usize, nn),
            Instruction::CopyReg(x, y) => self.inst_8xy0(x as usize, y as usize),
            Instruction::OrReg(x, y) => self.inst_8xy1(x as usize, y as usize),
            Instruction::AndReg(x, y) => self.inst_8xy2(x as usize, y as usize),
            Instruction::XorReg(x, y) => self.inst_8xy3(x as usize, y as usize),
            Instruction::AddReg(x, y) => self.inst_8xy4(x as usize, y as usize),
            Instruction::SubReg(x, y) => self.inst_8xy5(x as usize, y as usize),
            Instruction::ShiftRight(x) => self.inst_8xy6(x as usize),
            Instruction::SubFrom(x, y) => self.inst_8xy7(x as usize, y as usize),
            Instruction::ShiftLeft(x) => self.inst_8xye(x as usize),
            Instruction::SkipNeReg(x, y) => self.inst_9xy0(x as usize, y as usize),
            Instruction::SetIndex(nnn) => self.inst_annn(nnn),
            Instruction::JumpPlusV0(nnn) => self.inst_bnnn(nnn),
            Instruction::Random(x, nn) => self.inst_cxnn(x, nn),
            Instruction::Draw(x, y, n) => self.inst_dxyn(x as usize, y as usize, n as usize),
            Instruction::SkipKey(x) => self.inst_ex9e(x),
            Instruction::SkipNoKey(x) => self.inst_exa1(x),
            Instruction::GetDelay(x) => self.inst_fx07(x),
            Instruction::WaitKey(x) => {
                self.inst_fx0a(x);
                proof {
                    lemma_pc_back_two(old(self).pc);
                }
            },
            Instruction::SetDelay(x) => self.inst_fx15(x),
            Instruction::SetSound(x) => self.inst_fx18(x),
            Instruction::AddIndex(x) => self.inst_fx1e(x),
            Instruction::FontIndex(x) => self.inst_fx29(x),
            Instruction::StoreBcd(x) => self.inst_fx33(x),
            Instruction::StoreRegs(x) => self.inst_fx55(x),
            Instruction::LoadRegs(x) => self.inst_fx65(x),
            Instruction::Nop => (),
        }
    }

    /// Blank the display.
    fn inst_00e0(&mut self)
        requires
            old(self).wf(),
        ensures
            final(self).wf(),
            same_regs(*old(self), *final(self)),
            same_index(*old(self), *final(self)),
            same_timers(*old(self), *final(self)),
            same_ram(*old(self), *final(self)),
            same_stack(*old(self), *final(self)),
            same_keys(*old(self), *final(self)),
            final(self).pc == old(self).pc,
            forall|p: int| 0 <= p < NUM_PIXELS ==> !final(self).display.frame@[p],
    {
        self.display.clear();
    }

    /// Pop the return address into the program counter.
    fn inst_00ee(&mut self)
        requires
            old(self).wf(),
        ensures
            final(self).wf(),
            same_regs(*old(self), *final(self)),
            same_index(*old(self), *final(self)),
            same_timers(*old(self), *final(self)),
            same_ram(*old(self), *final(self)),
            same_display(*old(self), *final(self)),
            same_keys(*old(self), *final(self)),
            final(self).pc == old(self).memory.stack@[old(self).memory.sp as int],
            final(self).memory.stack@ == old(self).memory.stack@,
            final(self).memory.sp == (if old(self).memory.sp > 0 {
                old(self).memory.sp - 1
            } else {
                0
            }),
    {
        let addr = self.memory.pop_return();
        self.pc = addr;
    }

    /// Set the program counter.
    fn inst_1nnn(&mut self, nnn: u16)
        requires
            old(self).wf(),
            nnn < MEM_SIZE,
        ensures
            final(self).wf(),
            same_regs(*old(self), *final(self)),
            same_core(*old(self), *final(self)),
            final(self).pc == nnn,
    {
        self.pc = nnn;
    }

    /// Push the return address, then jump.
    fn inst_2nnn(&mut self, nnn: u16)
        requires
            old(self).wf(),
            nnn < MEM_SIZE,
        ensures
            final(self).wf(),
            same_regs(*old(self), *final(self)),
            same_index(*old(self), *final(self)),
            same_timers(*old(self), *final(self)),
            same_ram(*old(self), *final(self)),
            same_display(*old(self), *final(self)),
            same_keys(*old(self), *final(self)),
            final(self).pc == nnn,
            old(self).memory.sp < STACK_SIZE - 1 ==> {
                &&& final(self).memory.sp == old(self).memory.sp + 1
                &&& final(self).memory.stack@ == old(self).memory.stack@.update(
                    old(self).memory.sp as int + 1,
                    old(self).pc,
                )
            },
            old(self).memory.sp == STACK_SIZE - 1 ==> {
                &&& final(self).memory.sp == old(self).memory.sp
                &&& final(self).memory.stack@ == old(self).memory.stack@
            },
    {
        let ret = self.pc;
        self.memory.push_return(ret);
        self.pc = nnn;
    }

    /// Skip the next instruction if register x equals the byte.
    fn inst_3xnn(&mut self, x: usize, nn: u8)
        requires
            old(self).wf(),
            x < NUM_REGS,
        ensures
            final(self).wf(),
            same_regs(*old(self), *final(self)),
            same_core(*old(self), *final(self)),
            final(self).pc == (if old(self).v@[x as int] == nn {
                next_pc(old(self).pc)
            } else {
                old(self).pc
            }),
    {
        if self.v[x] == nn {
            self.pc = (self.pc + 2) % (MEM_SIZE as u16);
        }
    }

    /// Skip the next instruction if register x differs from the byte.
    fn inst_4xnn(&mut self, x: usize, nn: u8)
        requires
            old(self).wf(),
            x < NUM_REGS,
        ensures
            final(self).wf(),
            same_regs(*old(self), *final(self)),
            same_core(*old(self), *final(self)),
            final(self).pc == (if old(self).v@[x as int] != nn {
                next_pc(old(self).pc)
            } else {
                old(self).pc
            }),
    {
        if self.v[x] != nn {
            self.pc = (self.pc + 2) % (MEM_SIZE as u16);
        }
    }

    /// Skip if registers x and y are equal.
    fn inst_5xy0(&mut self, x: usize, y: usize)
        requires
            old(self).wf(),
            x < NUM_REGS,
            y < NUM_REGS,
        ensures
            final(self).wf(),
            same_regs(*old(self), *final(self)),
            same_core(*old(self), *final(self)),
            final(self).pc == (if old(self).v@[x as int] == old(self).v@[y as int] {
                next_pc(old(self).pc)
            } else {
                old(self).pc
            }),
    {
        if self.v[x] == self.v[y] {
            self.pc = (self.pc + 2) % (MEM_SIZE as u16);
        }
    }

    /// Register x = byte.
    fn inst_6xnn(&mut self, x: usize, nn: u8)
        requires
            old(self).wf(),
            x < NUM_REGS,
        ensures
            final(self).wf(),
            same_core(*old(self), *final(self)),
            final(self).pc == old(self).pc,
            final(self).v@ == old(self).v@.update(x as int, nn),
    {
        self.v.set(x, nn);
    }

    /// Register x += byte, wrapping, flag untouched.
    fn inst_7xnn(&mut self, x: usize, nn: u8)
        requires
            old(self).wf(),
            x < NUM_REGS,
        ensures
            final(self).wf(),
            same_core(*old(self), *final(self)),
            final(self).pc == old(self).pc,
            final(self).v@ == old(self).v@.update(
                x as int,
                ((old(self).v@[x as int] + nn) % 256) as u8,
            ),
    {
        let r = wrap_add8(self.v[x], nn);
        self.v.set(x, r);
    }

    /// Register x = register y.
    fn inst_8xy0(&mut self, x: usize, y: usize)
        requires
            old(self).wf(),
            x < NUM_REGS,
            y < NUM_REGS,
        ensures
            final(self).wf(),
            same_core(*old(self), *final(self)),
            final(self).pc == old(self).pc,
            final(self).v@ == old(self).v@.update(x as int, old(self).v@[y as int]),
    {
        let r = self.v[y];
        self.v.set(x, r);
    }

    /// Register x |= register y.
    fn inst_8xy1(&mut self, x: usize, y: usize)
        requires
            old(self).wf(),
            x < NUM_REGS,
            y < NUM_REGS,
        ensures
            final(self).wf(),
            same_core(*old(self), *final(self)),
            final(self).pc == old(self).pc,
            final(self).v@ == old(self).v@.update(
                x as int,
                old(self).v@[x as int] | old(self).v@[y as int],
            ),
    {
        let r = self.v[x] | self.v[y];
        self.v.set(x, r);
    }

    /// Register x &= register y.
    fn inst_8xy2(&mut self, x: usize, y: usize)
        requires
            old(self).wf(),
            x < NUM_REGS,
            y < NUM_REGS,
        ensures
            final(self).wf(),
            same_core(*old(self), *final(self)),
            final(self).pc == old(self).pc,
            final(self).v@ == old(self).v@.update(
                x as int,
                old(self).v@[x as int] & old(self).v@[y as int],
            ),
    {
        let r = self.v[x] & self.v[y];
        self.v.set(x, r);
    }

    /// Register x ^= register y.
    fn inst_8xy3(&mut self, x: usize, y: usize)
        requires
            old(self).wf(),
            x < NUM_REGS,
            y < NUM_REGS,
        ensures
            final(self).wf(),
            same_core(*old(self), *final(self)),
            final(self).pc == old(self).pc,
            final(self).v@ == old(self).v@.update(
                x as int,
                old(self).v@[x as int] ^ old(self).v@[y as int],
            ),
    {
        let r = self.v[x] ^ self.v[y];
        self.v.set(x, r);
    }

    /// Register x += register y; the flag gets 1 exactly when the true
    /// sum exceeds 255. The flag is written first, so when x is the flag
    /// register itself the wrapped sum is what remains.
    fn inst_8xy4(&mut self, x: usize, y: usize)
        requires
            old(self).wf(),
            x < NUM_REGS,
            y < NUM_REGS,
        ensures
            final(self).wf(),
            same_core(*old(self), *final(self)),
            final(self).pc == old(self).pc,
            final(self).v@ == old(self).v@.update(
                FLAG_REG as int,
                if old(self).v@[x as int] + old(self).v@[y as int] > 255 {
                    1u8
                } else {
                    0u8
                },
            ).update(
                x as int,
                ((old(self).v@[x as int] + old(self).v@[y as int]) % 256) as u8,
            ),
    {
        let a = self.v[x];
        let b = self.v[y];
        if 255 - a < b {
            self.v.set(FLAG_REG, 1);
        } else {
            self.v.set(FLAG_REG, 0);
        }
        let r = wrap_add8(a, b);
        self.v.set(x, r);
    }

    /// Register x -= register y; the flag gets 1 exactly when no borrow
    /// occurs, that is when the minuend is at least the subtrahend.
    fn inst_8xy5(&mut self, x: usize, y: usize)
        requires
            old(self).wf(),
            x < NUM_REGS,
            y < NUM_REGS,
        ensures
            final(self).wf(),
            same_core(*old(self), *final(self)),
            final(self).pc == old(self).pc,
            final(self).v@ == old(self).v@.update(
                FLAG_REG as int,
                if old(self).v@[x as int] >= old(self).v@[y as int] {
                    1u8
                } else {
                    0u8
                },
            ).update(
                x as int,
                ((old(self).v@[x as int] - old(self).v@[y as int] + 256) % 256) as u8,
            ),
    {
        let a = self.v[x];
        let b = self.v[y];
        if a >= b {
            self.v.set(FLAG_REG, 1);
        } else {
            self.v.set(FLAG_REG, 0);
        }
        let r = wrap_sub8(a, b);
        self.v.set(x, r);
    }

    /// Flag = low bit of register x; register x halves.
    fn inst_8xy6(&mut self, x: usize)
        requires
            old(self).wf(),
            x < NUM_REGS,
        ensures
            final(self).wf(),
            same_core(*old(self), *final(self)),
            final(self).pc == old(self).pc,
            final(self).v@ == old(self).v@.update(
                FLAG_REG as int,
                (old(self).v@[x as int] % 2) as u8,
            ).update(x as int, (old(self).v@[x as int] / 2) as u8),
    {
        let a = self.v[x];
        self.v.set(FLAG_REG, a % 2);
        self.v.set(x, a / 2);
    }

    /// Register x = register y - register x; the flag gets 1 exactly
    /// when no borrow occurs.
    fn inst_8xy7(&mut self, x: usize, y: usize)
        requires
            old(self).wf(),
            x < NUM_REGS,
            y < NUM_REGS,
        ensures
            final(self).wf(),
            same_core(*old(self), *final(self)),
            final(self).pc == old(self).pc,
            final(self).v@ == old(self).v@.update(
                FLAG_REG as int,
                if old(self).v@[y as int] >= old(self).v@[x as int] {
                    1u8
                } else {
                    0u8
                },
            ).update(
                x as int,
                ((old(self).v@[y as int] - old(self).v@[x as int] + 256) % 256) as u8,
            ),
    {
        let a = self.v[x];
        let b = self.v[y];
        if b >= a {
            self.v.set(FLAG_REG, 1);
        } else {
            self.v.set(FLAG_REG, 0);
        }
        let r = wrap_sub8(b, a);
        self.v.set(x, r);
    }

    /// Flag = high bit of register x; register x doubles, wrapping.
    fn inst_8xye(&mut self, x: usize)
        requires
            old(self).wf(),
            x < NUM_REGS,
        ensures
            final(self).wf(),
            same_core(*old(self), *final(self)),
            final(self).pc == old(self).pc,
            final(self).v@ == old(self).v@.update(
                FLAG_REG as int,
                (old(self).v@[x as int] / 128) as u8,
            ).update(x as int, ((old(self).v@[x as int] * 2) % 256) as u8),
    {
        let a = self.v[x];
        self.v.set(FLAG_REG, a / 128);
        let r = wrap_add8(a, a);
        proof {
            assert(((a + a) % 256) as u8 == ((a * 2) % 256) as u8);
        }
        self.v.set(x, r);
    }

    /// Skip if registers x and y differ.
    fn inst_9xy0(&mut self, x: usize, y: usize)
        requires
            old(self).wf(),
            x < NUM_REGS,
            y < NUM_REGS,
        ensures
            final(self).wf(),
            same_regs(*old(self), *final(self)),
            same_core(*old(self), *final(self)),
            final(self).pc == (if old(self).v@[x as int] != old(self).v@[y as int] {
                next_pc(old(self).pc)
            } else {
                old(self).pc
            }),
    {
        if self.v[x] != self.v[y] {
            self.pc = (self.pc + 2) % (MEM_SIZE as u16);
        }
    }

    /// Address register = nnn.
    fn inst_annn(&mut self, nnn: u16)
        requires
            old(self).wf(),
            nnn < MEM_SIZE,
        ensures
            final(self).wf(),
            same_regs(*old(self), *final(self)),
            same_timers(*old(self), *final(self)),
            same_ram(*old(self), *final(self)),
            same_stack(*old(self), *final(self)),
            same_display(*old(self), *final(self)),
            same_keys(*old(self), *final(self)),
            final(self).pc == old(self).pc,
            final(self).i == nnn,
    {
        self.i = nnn;
    }

    /// Jump to nnn + register 0, masked into the address space.
    fn inst_bnnn(&mut self, nnn: u16)
        requires
            old(self).wf(),
            nnn < MEM_SIZE,
        ensures
            final(self).wf(),
            same_regs(*old(self), *final(self)),
            same_core(*old(self), *final(self)),
            final(self).pc == ((old(self).v@[0] + nnn) % MEM_SIZE as int) as u16,
    {
        self.pc = (self.v[0] as u16 + nnn) % (MEM_SIZE as u16);
    }

    /// Register x = random byte AND the mask byte.
    fn inst_cxnn(&mut self, x: u8, nn: u8)
        requires
            old(self).wf(),
            x < NUM_REGS,
        ensures
            final(self).wf(),
            same_core(*old(self), *final(self)),
            final(self).pc == old(self).pc,
            exists|r: u8| final(self).v@ == old(self).v@.update(x as int, r & nn),
    {
        let r = next_random_byte(&mut self.rng);
        self.v.set(x as usize, r & nn);
        proof {
            assert(self.v@ == old(self).v@.update(x as int, r & nn));
        }
    }

    /// Draw an n-row sprite from the address register at the wrapped
    /// coordinates in registers x and y; the flag records a collision.
    fn inst_dxyn(&mut self, x: usize, y: usize, n: usize)
        requires
            old(self).wf(),
            x < NUM_REGS,
            y < NUM_REGS,
            n < 16,
        ensures
            final(self).wf(),
            same_index(*old(self), *final(self)),
            same_timers(*old(self), *final(self)),
            same_ram(*old(self), *final(self)),
            same_stack(*old(self), *final(self)),
            same_keys(*old(self), *final(self)),
            final(self).pc == old(self).pc,
            final(self).display.frame@ == frame_after_draw(
                old(self).display.frame@,
                old(self).v@[x as int] as int % 64,
                old(self).v@[y as int] as int % 32,
                Seq::new(n as nat, |k: int| old(self).memory.ram@[(old(self).i + k) % MEM_SIZE as int]),
            ),
            final(self).v@ == old(self).v@.update(
                FLAG_REG as int,
                if draw_collides(
                    old(self).display.frame@,
                    old(self).v@[x as int] as int % 64,
                    old(self).v@[y as int] as int % 32,
                    Seq::new(n as nat, |k: int| old(self).memory.ram@[(old(self).i + k) % MEM_SIZE as int]),
                ) {
                    1u8
                } else {
                    0u8
                },
            ),
    {
        let ghost rows_spec = Seq::new(
            n as nat,
            |k: int| old(self).memory.ram@[(old(self).i + k) % MEM_SIZE as int],
        );
        let mut rows: Vec<u8> = Vec::new();
        let mut k: usize = 0;
        while k < n
            invariant
                self.wf(),
                *self == *old(self),
                k <= n,
                n < 16,
                rows@.len() == k,
                forall|t: int|
                    0 <= t < k ==> rows@[t] == old(self).memory.ram@[(old(self).i + t)
                        % MEM_SIZE as int],
            decreases n - k,
        {
            let b = self.memory.read_byte(self.i + (k as u16));
            rows.push(b);
            k = k + 1;
        }
        proof {
            assert(rows@ =~= rows_spec);
        }
        let sx = (self.v[x] % 64) as usize;
        let sy = (self.v[y] % 32) as usize;
        let col = self.display.display_sprite(sx, sy, rows.as_slice());
        if col {
            self.v.set(FLAG_REG, 1);
        } else {
            self.v.set(FLAG_REG, 0);
        }
    }

    /// Skip if the key named by the low nibble of register x is down.
    fn inst_ex9e(&mut self, x: u8)
        requires
            old(self).wf(),
            x < NUM_REGS,
        ensures
            final(self).wf(),
            same_regs(*old(self), *final(self)),
            same_core(*old(self), *final(self)),
            final(self).pc == (if old(self).keyboard.state@[old(self).v@[x as int] as int % 16] {
                next_pc(old(self).pc)
            } else {
                old(self).pc
            }),
    {
        let key = (self.v[x as usize] % 16) as usize;
        if self.keyboard.is_pressed(key) {
            self.pc = (self.pc + 2) % (MEM_SIZE as u16);
        }
    }

    /// Skip if the key named by the low nibble of register x is up.
    fn inst_exa1(&mut self, x: u8)
        requires
            old(self).wf(),
            x < NUM_REGS,
        ensures
            final(self).wf(),
            same_regs(*old(self), *final(self)),
            same_core(*old(self), *final(self)),
            final(self).pc == (if !old(self).keyboard.state@[old(self).v@[x as int] as int % 16] {
                next_pc(old(self).pc)
            } else {
                old(self).pc
            }),
    {
        let key = (self.v[x as usize] % 16) as usize;
        if !self.keyboard.is_pressed(key) {
            self.pc = (self.pc + 2) % (MEM_SIZE as u16);
        }
    }

    /// Register x = delay timer.
    fn inst_fx07(&mut self, x: u8)
        requires
            old(self).wf(),
            x < NUM_REGS,
        ensures
            final(self).wf(),
            same_core(*old(self), *final(self)),
            final(self).pc == old(self).pc,
            final(self).v@ == old(self).v@.update(x as int, old(self).dt),
    {
        let d = self.dt;
        self.v.set(x as usize, d);
    }

    /// Wait for a key: with none down, move the program counter back by
    /// two so the same instruction is fetched again next cycle; once one
    /// is down, store the lowest such key's index in register x.
    fn inst_fx0a(&mut self, x: u8)
        requires
            old(self).wf(),
            x < NUM_REGS,
        ensures
            final(self).wf(),
            same_core(*old(self), *final(self)),
            match first_pressed_from(old(self).keyboard.state@, 0) {
                Some(k) => {
                    &&& final(self).v@ == old(self).v@.update(x as int, k as u8)
                    &&& final(self).pc == old(self).pc
                },
                None => {
                    &&& same_regs(*old(self), *final(self))
                    &&& final(self).pc == ((old(self).pc - 2 + MEM_SIZE as int) % MEM_SIZE as int) as u16
                },
            },
    {
        match self.keyboard.any_pressed() {
            Some(key) => {
                self.v.set(x as usize, key as u8);
            },
            None => {
                self.pc = (self.pc + ((MEM_SIZE - 2) as u16)) % (MEM_SIZE as u16);
            },
        }
    }

    /// Delay timer = register x.
    fn inst_fx15(&mut self, x: u8)
        requires
            old(self).wf(),
            x < NUM_REGS,
        ensures
            final(self).wf(),
            same_regs(*old(self), *final(self)),
            same_index(*old(self), *final(self)),
            same_ram(*old(self), *final(self)),
            same_stack(*old(self), *final(self)),
            same_display(*old(self), *final(self)),
            same_keys(*old(self), *final(self)),
            final(self).pc == old(self).pc,
            final(self).dt == old(self).v@[x as int],
            final(self).st == old(self).st,
    {
        self.dt = self.v[x as usize];
    }

    /// Sound timer = register x.
    fn inst_fx18(&mut self, x: u8)
        requires
            old(self).wf(),
            x < NUM_REGS,
        ensures
            final(self).wf(),
            same_regs(*old(self), *final(self)),
            same_index(*old(self), *final(self)),
            same_ram(*old(self), *final(self)),
            same_stack(*old(self), *final(self)),
            same_display(*old(self), *final(self)),
            same_keys(*old(self), *final(self)),
            final(self).pc == old(self).pc,
            final(self).st == old(self).v@[x as int],
            final(self).dt == old(self).dt,
    {
        self.st = self.v[x as usize];
    }

    /// Address register += register x, masked into the address space.
    fn inst_fx1e(&mut self, x: u8)
        requires
            old(self).wf(),
            x < NUM_REGS,
        ensures
            final(self).wf(),
            same_regs(*old(self), *final(self)),
            same_timers(*old(self), *final(self)),
            same_ram(*old(self), *final(self)),
            same_stack(*old(self), *final(self)),
            same_display(*old(self), *final(self)),
            same_keys(*old(self), *final(self)),
            final(self).pc == old(self).pc,
            final(self).i == ((old(self).i + old(self).v@[x as int]) % MEM_SIZE as int) as u16,
    {
        self.i = (self.i + self.v[x as usize] as u16) % (MEM_SIZE as u16);
    }

    /// Address register = five times the digit in register x: each
    /// built-in glyph is five bytes long.
    fn inst_fx29(&mut self, x: u8)
        requires
            old(self).wf(),
            x < NUM_REGS,
        ensures
            final(self).wf(),
            same_regs(*old(self), *final(self)),
            same_timers(*old(self), *final(self)),
            same_ram(*old(self), *final(self)),
            same_stack(*old(self), *final(self)),
            same_display(*old(self), *final(self)),
            same_keys(*old(self), *final(self)),
            final(self).pc == old(self).pc,
            final(self).i == old(self).v@[x as int] * 5,
    {
        self.i = self.v[x as usize] as u16 * 5;
    }

    /// Write the hundreds, tens and ones digits of register x at the
    /// address register.
    fn inst_fx33(&mut self, x: u8)
        requires
            old(self).wf(),
            x < NUM_REGS,
        ensures
            final(self).wf(),
            same_regs(*old(self), *final(self)),
            same_index(*old(self), *final(self)),
            same_timers(*old(self), *final(self)),
            same_stack(*old(self), *final(self)),
            same_display(*old(self), *final(self)),
            same_keys(*old(self), *final(self)),
            final(self).pc == old(self).pc,
            final(self).memory.ram@ == old(self).memory.ram@.update(
                old(self).i as int % MEM_SIZE as int,
                (((old(self).v@[x as int] / 100) % 10) as u8),
            ).update(
                (old(self).i + 1) % MEM_SIZE as int,
                (((old(self).v@[x as int] / 10) % 10) as u8),
            ).update((old(self).i + 2) % MEM_SIZE as int, ((old(self).v@[x as int] % 10) as u8)),
    {
        let val = self.v[x as usize];
        let base = self.i;
        self.memory.write_byte(base, (val / 100) % 10);
        self.memory.write_byte(base + 1, (val / 10) % 10);
        self.memory.write_byte(base + 2, val % 10);
    }

    /// Copy registers 0..=x to memory at the address register.
    fn inst_fx55(&mut self, x: u8)
        requires
            old(self).wf(),
            x < NUM_REGS,
        ensures
            final(self).wf(),
            same_regs(*old(self), *final(self)),
            same_index(*old(self), *final(self)),
            same_timers(*old(self), *final(self)),
            same_stack(*old(self), *final(self)),
            same_display(*old(self), *final(self)),
            same_keys(*old(self), *final(self)),
            final(self).pc == old(self).pc,
            final(self).memory.ram@ == mem_after_store(
                old(self).memory.ram@,
                old(self).i as int,
                old(self).v@,
                x as int + 1,
            ),
    {
        let mut k: usize = 0;
        while k < (x as usize) + 1
            invariant
                old(self).wf(),
                self.wf(),
                x < NUM_REGS,
                k <= x as usize + 1,
                self.v@ == old(self).v@,
                self.i == old(self).i,
                self.pc == old(self).pc,
                self.dt == old(self).dt,
                self.st == old(self).st,
                self.memory.stack@ == old(self).memory.stack@,
                self.memory.sp == old(self).memory.sp,
                self.display.frame@ == old(self).display.frame@,
                self.keyboard.state@ == old(self).keyboard.state@,
                self.memory.ram@ == mem_after_store(
                    old(self).memory.ram@,
                    old(self).i as int,
                    old(self).v@,
                    k as int,
                ),
            decreases x as usize + 1 - k,
        {
            let b = self.v[k];
            self.memory.write_byte(self.i + (k as u16), b);
            k = k + 1;
        }
    }

    /// Load registers 0..=x from memory at the address register.
    fn inst_fx65(&mut self, x: u8)
        requires
            old(self).wf(),
            x < NUM_REGS,
        ensures
            final(self).wf(),
            same_index(*old(self), *final(self)),
            same_timers(*old(self), *final(self)),
            same_ram(*old(self), *final(self)),
            same_stack(*old(self), *final(self)),
            same_display(*old(self), *final(self)),
            same_keys(*old(self), *final(self)),
            final(self).pc == old(self).pc,
            final(self).v@ == regs_after_load(
                old(self).v@,
                old(self).memory.ram@,
                old(self).i as int,
                x as int + 1,
            ),
    {
        let mut k: usize = 0;
        while k < (x as usize) + 1
            invariant
                old(self).wf(),
                self.wf(),
                x < NUM_REGS,
                k <= x as usize + 1,
                self.i == old(self).i,
                self.pc == old(self).pc,
                self.dt == old(self).dt,
                self.st == old(self).st,
                self.memory.ram@ == old(self).memory.ram@,
                self.memory.stack@ == old(self).memory.stack@,
                self.memory.sp == old(self).memory.sp,
                self.display.frame@ == old(self).display.frame@,
                self.keyboard.state@ == old(self).keyboard.state@,
                self.v@ == regs_after_load(
                    old(self).v@,
                    old(self).memory.ram@,
                    old(self).i as int,
                    k as int,
                ),
            decreases x as usize + 1 - k,
        {
            let b = self.memory.read_byte(self.i + (k as u16));
            self.v.set(k, b);
            k = k + 1;
        }
    }

    /// One 60 Hz tick from the external driver: each timer counts down
    /// by one, floored at zero.
    pub fn tick_timers(&mut self)
        requires
            old(self).wf(),
        ensures
            final(self).wf(),
            final(self).dt == (if old(self).dt > 0 {
                old(self).dt - 1
            } else {
                0
            }),
            final(self).st == (if old(self).st > 0 {
                old(self).st - 1
            } else {
                0
            }),
            same_regs(*old(self), *final(self)),
            same_index(*old(self), *final(self)),
            same_ram(*old(self), *final(self)),
            same_stack(*old(self), *final(self)),
            same_display(*old(self), *final(self)),
            same_keys(*old(self), *final(self)),
            final(self).pc == old(self).pc,
    {
        if self.dt > 0 {
            self.dt = self.dt - 1;
        }
        if self.st > 0 {
            self.st = self.st - 1;
        }
    }

    /// Records a key press or release from the external input layer.
    pub fn set_key_state(&mut self, key: usize, down: bool)
        requires
            old(self).wf(),
            key < NUM_KEYS,
        ensures
            final(self).wf(),
            final(self).keyboard.state@ == old(self).keyboard.state@.update(key as int, down),
            same_regs(*old(self), *final(self)),
            same_index(*old(self), *final(self)),
            same_timers(*old(self), *final(self)),
            same_ram(*old(self), *final(self)),
            same_stack(*old(self), *final(self)),
            same_display(*old(self), *final(self)),
            final(self).pc == old(self).pc,
    {
        if down {
            self.keyboard.pressed(key);
        } else {
            self.keyboard.released(key);
        }
    }
}

/// The add instruction stores the wrapped sum of the two registers, and
/// sets the flag register to 1 exactly when the true sum exceeds 255,
/// to 0 otherwise. When x is the flag register itself, the wrapped sum
/// overwrites the flag, so the flag clauses exclude that register.
pub proof fn lemma_add_carry_law(pre: CPU, post: CPU, x: u8, y: u8)
    requires
        pre.wf(),
        step_rel(pre, post),
        x < NUM_REGS,
        y < NUM_REGS,
        fetched(pre) == Instruction::AddReg(x, y),
    ensures
        post.v@[x as int] == (pre.v@[x as int] + pre.v@[y as int]) % 256,
        x != FLAG_REG ==> ((post.v@[FLAG_REG as int] == 1) <==> pre.v@[x as int] + pre.v@[y as int]
            > 255),
        x != FLAG_REG ==> ((post.v@[FLAG_REG as int] == 0) <==> pre.v@[x as int] + pre.v@[y as int]
            <= 255),
{
}

/// The subtract instruction stores the wrapped difference of the two
/// registers — `(a - b) mod 256`, written here with the difference
/// shifted into range — and sets the flag register to 1 exactly when no
/// borrow occurs, that is when the minuend is at least the subtrahend.
/// When x is the flag register itself, the wrapped difference
/// overwrites the flag, so the flag clauses exclude that register.
pub proof fn lemma_sub_borrow_law(pre: CPU, post: CPU, x: u8, y: u8)
    requires
        pre.wf(),
        step_rel(pre, post),
        x < NUM_REGS,
        y < NUM_REGS,
        fetched(pre) == Instruction::SubReg(x, y),
    ensures
        post.v@[x as int] == (pre.v@[x as int] - pre.v@[y as int] + 256) % 256,
        x != FLAG_REG ==> ((post.v@[FLAG_REG as int] == 1) <==> pre.v@[x as int] >= pre.v@[y as int]),
        x != FLAG_REG ==> ((post.v@[FLAG_REG as int] == 0) <==> pre.v@[x as int] < pre.v@[y as int]),
{
}

/// A jump lands the program counter exactly on the jump target: no
/// ordinary advance is applied on top of an explicit jump.
pub proof fn lemma_jump_lands(pre: CPU, post: CPU, nnn: u16)
    requires
        pre.wf(),
        step_rel(pre, post),
        fetched(pre) == Instruction::Jump(nnn),
    ensures
        post.pc == nnn,
{
}

/// A call followed by a return restores the program counter to the
/// instruction immediately after the call site, provided a stack slot
/// was free for the return address.
pub proof fn lemma_call_return_round_trip(pre: CPU, mid: CPU, post: CPU, nnn: u16)
    requires
        pre.wf(),
        mid.wf(),
        pre.memory.sp < STACK_SIZE - 1,
        step_rel(pre, mid),
        step_rel(mid, post),
        fetched(pre) == Instruction::Call(nnn),
        fetched(mid) == Instruction::Return,
    ensures
        post.pc == next_pc(pre.pc),
{
}

/// A step on the wait-for-key instruction with no key down leaves the
/// program counter where it was: the same instruction is fetched again
/// next cycle, and the registers hold still.
pub proof fn lemma_wait_key_holds(pre: CPU, post: CPU, x: u8)
    requires
        pre.wf(),
        step_rel(pre, post),
        x < NUM_REGS,
        fetched(pre) == Instruction::WaitKey(x),
        forall|k: int| 0 <= k < NUM_KEYS ==> !pre.keyboard.state@[k],
    ensures
        post.pc == pre.pc,
        post.v@ == pre.v@,
{
    crate::keyboard::lemma_first_pressed_none(pre.keyboard.state@, 0);
}

/// A step on the wait-for-key instruction with a key down advances the
/// program counter as usual and stores the lowest pressed key's index
/// in the target register.
pub proof fn lemma_wait_key_advances(pre: CPU, post: CPU, x: u8, k: int)
    requires
        pre.wf(),
        step_rel(pre, post),
        x < NUM_REGS,
        fetched(pre) == Instruction::WaitKey(x),
        0 <= k < NUM_KEYS,
        pre.keyboard.state@[k],
        forall|j: int| 0 <= j < k ==> !pre.keyboard.state@[j],
    ensures
        post.pc == next_pc(pre.pc),
        post.v@ == pre.v@.update(x as int, k as u8),
{
    crate::keyboard::lemma_first_pressed_some(pre.keyboard.state@, 0, k);
}

} // verus!
