//! The CPU core: registers, index register, program counter, call stack and
//! timers, with the fetch-decode-execute cycle and its exact per-instruction
//! semantics.

use vstd::prelude::*;

use vstd::arithmetic::div_mod::lemma_mod_add_multiples_vanish;

use crate::decode;
use crate::decode::decode_spec;
use crate::error::{ControlError, MemoryError, StepError};
use crate::instr::Instruction;
use crate::system::{
    draw_collides, sprite_hits, System, SysModel, SIZE_GFX, SIZE_KEYS, SIZE_MEM,
};

verus! {

/// Number of general-purpose registers `V0..VF`.
pub const NUM_REGS: usize = 16;

/// Capacity of the call stack.
pub const SIZE_STACK: usize = 16;

/// Address at which program execution starts.
pub const PC_INIT: u16 = 0x200;

/// Mathematical view of a [`Cpu`]: the register file, the call stack of
/// return addresses, index register, program counter, the two timers, and
/// the attached [`System`] state.
pub ghost struct CpuModel {
    pub regs: Seq<u8>,
    pub stack: Seq<u16>,
    pub idx: u16,
    pub pc: u16,
    pub delay: u8,
    pub sound: u8,
    pub sys: SysModel,
}

impl CpuModel {
    /// Fixed sizes: 16 registers, a call stack of depth at most 16, and a
    /// well-formed system.
    pub open spec fn inv(self) -> bool {
        &&& self.regs.len() == NUM_REGS
        &&& self.stack.len() <= SIZE_STACK
        &&& self.sys.inv()
    }
}

/// The 8-bit wraparound of an integer.
pub open spec fn wrap8(v: int) -> u8 {
    (v % 256) as u8
}

/// The 16-bit wraparound of an integer.
pub open spec fn wrap16(v: int) -> u16 {
    (v % 0x10000) as u16
}

/// 1 when the condition holds, else 0: the value written into `VF`.
pub open spec fn bool_flag(b: bool) -> u8 {
    if b {
        1u8
    } else {
        0u8
    }
}

/// The register file after an arithmetic instruction that reports a flag:
/// the flag is written to `VF` first, then the result to the destination,
/// so when the destination is `VF` itself the data value wins.
pub open spec fn flag_then_data(regs: Seq<u8>, x: int, val: u8, flag: u8) -> Seq<u8> {
    regs.update(15, flag).update(x, val)
}

/// The program counter after a conditional skip.
pub open spec fn skip_pc(pc: u16, cond: bool) -> u16 {
    if cond {
        (pc + 2) as u16
    } else {
        pc
    }
}

/// The big-endian 16-bit word at address `p`.
pub open spec fn word_at(m: CpuModel, p: int) -> u16 {
    ((m.sys.mem[p] as u16) << 8) | (m.sys.mem[p + 1] as u16)
}

/// The state with the program counter advanced past the fetched word.
pub open spec fn advance(m: CpuModel) -> CpuModel {
    CpuModel { pc: (m.pc + 2) as u16, ..m }
}

/// The error that executing `i` in state `m` surfaces, if any: stack
/// discipline violations and instruction operands that would reach past the
/// end of memory, each detected before any state changes.
pub open spec fn exec_err(m: CpuModel, i: Instruction) -> Option<StepError> {
    match i {
        Instruction::Ret => if m.stack.len() == 0 {
            Some(StepError::Control(ControlError::StackUnderflow))
        } else {
            None
        },
        Instruction::Call(_) => if m.stack.len() >= SIZE_STACK {
            Some(StepError::Control(ControlError::StackOverflow))
        } else {
            None
        },
        Instruction::Draw(_, _, n) => if m.idx as int + n as int > SIZE_MEM as int {
            Some(StepError::Memory(MemoryError::OutOfBounds(m.idx)))
        } else {
            None
        },
        Instruction::BcdStore(_) => if m.idx as int + 2 >= SIZE_MEM as int {
            Some(StepError::Memory(MemoryError::OutOfBounds(m.idx)))
        } else {
            None
        },
        Instruction::RegDump(x) => if m.idx as int + x as int >= SIZE_MEM as int {
            Some(StepError::Memory(MemoryError::OutOfBounds(m.idx)))
        } else {
            None
        },
        Instruction::RegLoad(x) => if m.idx as int + x as int >= SIZE_MEM as int {
            Some(StepError::Memory(MemoryError::OutOfBounds(m.idx)))
        } else {
            None
        },
        _ => None,
    }
}

/// The effect of successfully executing one decoded instruction: how the
/// post-state `m2` arises from the pre-state `m`, whose program counter
/// already points just past the fetched word.
pub open spec fn exec_ok(m: CpuModel, m2: CpuModel, i: Instruction) -> bool {
    match i {
        Instruction::Cls => m2 == (CpuModel {
            sys: SysModel { gfx: Seq::new(SIZE_GFX as nat, |p: int| false), ..m.sys },
            ..m
        }),
        Instruction::Ret => m2 == (CpuModel {
            pc: m.stack.last(),
            stack: m.stack.drop_last(),
            ..m
        }),
        Instruction::Sys(_) => m2 == m,
        Instruction::Jump(a) => m2 == (CpuModel { pc: a, ..m }),
        Instruction::Call(a) => m2 == (CpuModel { pc: a, stack: m.stack.push(m.pc), ..m }),
        Instruction::SkipEqImm(x, k) => m2 == (CpuModel {
            pc: skip_pc(m.pc, m.regs[x as int] == k),
            ..m
        }),
        Instruction::SkipNeImm(x, k) => m2 == (CpuModel {
            pc: skip_pc(m.pc, m.regs[x as int] != k),
            ..m
        }),
        Instruction::SkipEqReg(x, y) => m2 == (CpuModel {
            pc: skip_pc(m.pc, m.regs[x as int] == m.regs[y as int]),
            ..m
        }),
        Instruction::SkipNeReg(x, y) => m2 == (CpuModel {
            pc: skip_pc(m.pc, m.regs[x as int] != m.regs[y as int]),
            ..m
        }),
        Instruction::LoadImm(x, k) => m2 == (CpuModel { regs: m.regs.update(x as int, k), ..m }),
        Instruction::AddImm(x, k) => m2 == (CpuModel {
            regs: m.regs.update(x as int, wrap8(m.regs[x as int] + k)),
            ..m
        }),
        Instruction::LoadReg(x, y) => m2 == (CpuModel {
            regs: m.regs.update(x as int, m.regs[y as int]),
            ..m
        }),
        Instruction::Or(x, y) => m2 == (CpuModel {
            regs: m.regs.update(x as int, m.regs[x as int] | m.regs[y as int]),
            ..m
        }),
        Instruction::And(x, y) => m2 == (CpuModel {
            regs: m.regs.update(x as int, m.regs[x as int] & m.regs[y as int]),
            ..m
        }),
        Instruction::Xor(x, y) => m2 == (CpuModel {
            regs: m.regs.update(x as int, m.regs[x as int] ^ m.regs[y as int]),
            ..m
        }),
        Instruction::AddReg(x, y) => m2 == (CpuModel {
            regs: flag_then_data(
                m.regs,
                x as int,
                wrap8(m.regs[x as int] + m.regs[y as int]),
                bool_flag(m.regs[x as int] + m.regs[y as int] > 255),
            ),
            ..m
        }),
        Instruction::Sub(x, y) => m2 == (CpuModel {
            regs: flag_then_data(
                m.regs,
                x as int,
                wrap8(m.regs[x as int] - m.regs[y as int]),
                bool_flag(m.regs[x as int] >= m.regs[y as int]),
            ),
            ..m
        }),
        Instruction::SubN(x, y) => m2 == (CpuModel {
            regs: flag_then_data(
                m.regs,
                x as int,
                wrap8(m.regs[y as int] - m.regs[x as int]),
                bool_flag(m.regs[y as int] >= m.regs[x as int]),
            ),
            ..m
        }),
        Instruction::ShiftRight(x) => m2 == (CpuModel {
            regs: flag_then_data(
                m.regs,
                x as int,
                m.regs[x as int] / 2,
                m.regs[x as int] % 2,
            ),
            ..m
        }),
        Instruction::ShiftLeft(x) => m2 == (CpuModel {
            regs: flag_then_data(
                m.regs,
                x as int,
                wrap8(2 * m.regs[x as int]),
                m.regs[x as int] / 128,
            ),
            ..m
        }),
        Instruction::LoadIndex(a) => m2 == (CpuModel { idx: a, ..m }),
        Instruction::JumpOffset(a) => m2 == (CpuModel { pc: (a + m.regs[0]) as u16, ..m }),
        Instruction::Random(x, k) => exists|b: u8|
            m2 == (CpuModel { regs: m.regs.update(x as int, b & k), ..m }),
        Instruction::Draw(x, y, n) => {
            let x0 = m.regs[x as int] as int % 64;
            let y0 = m.regs[y as int] as int % 32;
            let base = m.idx as int;
            m2 == (CpuModel {
                regs: m.regs.update(
                    15,
                    bool_flag(draw_collides(m.sys.gfx, m.sys.mem, base, x0, y0, n as int)),
                ),
                sys: SysModel {
                    gfx: Seq::new(
                        SIZE_GFX as nat,
                        |p: int|
                            m.sys.gfx[p] != sprite_hits(m.sys.mem, base, x0, y0, n as int, p),
                    ),
                    ..m.sys
                },
                ..m
            })
        },
        Instruction::SkipKey(x) => m2 == (CpuModel {
            pc: skip_pc(m.pc, m.sys.keys[(m.regs[x as int] & 0x0F) as int]),
            ..m
        }),
        Instruction::SkipNoKey(x) => m2 == (CpuModel {
            pc: skip_pc(m.pc, !m.sys.keys[(m.regs[x as int] & 0x0F) as int]),
            ..m
        }),
        Instruction::LoadDelay(x) => m2 == (CpuModel {
            regs: m.regs.update(x as int, m.delay),
            ..m
        }),
        Instruction::WaitKey(x) => if forall|k: int| 0 <= k < SIZE_KEYS ==> !m.sys.keys[k] {
            // No key is down: rewind to the wait instruction so the next
            // cycle retries, leaving timers and display free to run.
            m2 == (CpuModel { pc: (m.pc - 2) as u16, ..m })
        } else {
            exists|k: int|
                0 <= k < SIZE_KEYS && m.sys.keys[k] && (forall|j: int| 0 <= j < k ==> !m.sys.keys[j])
                    && m2 == (CpuModel { regs: m.regs.update(x as int, k as u8), ..m })
        },
        Instruction::SetDelay(x) => m2 == (CpuModel { delay: m.regs[x as int], ..m }),
        Instruction::SetSound(x) => m2 == (CpuModel { sound: m.regs[x as int], ..m }),
        Instruction::AddIndex(x) => m2 == (CpuModel {
            idx: wrap16(m.idx + m.regs[x as int]),
            ..m
        }),
        Instruction::SpriteAddr(x) => m2 == (CpuModel {
            idx: (5 * ((m.regs[x as int] & 0x0F) as u16)) as u16,
            ..m
        }),
        Instruction::BcdStore(x) => {
            let v = m.regs[x as int];
            let base = m.idx as int;
            m2 == (CpuModel {
                sys: SysModel {
                    mem: m.sys.mem.update(base, v / 100).update(base + 1, (v / 10) % 10).update(
                        base + 2,
                        v % 10,
                    ),
                    ..m.sys
                },
                ..m
            })
        },
        Instruction::RegDump(x) => m2 == (CpuModel {
            sys: SysModel {
                mem: Seq::new(
                    SIZE_MEM as nat,
                    |p: int|
                        if m.idx as int <= p <= m.idx as int + x as int {
                            m.regs[p - m.idx as int]
                        } else {
                            m.sys.mem[p]
                        },
                ),
                ..m.sys
            },
            ..m
        }),
        Instruction::RegLoad(x) => m2 == (CpuModel {
            regs: Seq::new(
                NUM_REGS as nat,
                |t: int|
                    if t <= x as int {
                        m.sys.mem[m.idx as int + t]
                    } else {
                        m.regs[t]
                    },
            ),
            ..m
        }),
    }
}

/// One full step: what [`Cpu::cycle`] does to the state and returns. On any
/// error the state is left exactly as it was.
pub open spec fn cycle_rel(m: CpuModel, m2: CpuModel, r: Result<(), StepError>) -> bool {
    if m.pc as int + 1 >= SIZE_MEM as int {
        r == Err::<(), StepError>(StepError::Memory(MemoryError::OutOfBounds(m.pc))) && m2 == m
    } else {
        match decode_spec(word_at(m, m.pc as int)) {
            Err(e) => r == Err::<(), StepError>(StepError::Decode(e)) && m2 == m,
            Ok(i) => match exec_err(advance(m), i) {
                Some(e) => r == Err::<(), StepError>(e) && m2 == m,
                None => r is Ok && exec_ok(advance(m), m2, i),
            },
        }
    }
}

/// Relies on rand::random: draws a value from the thread-local generator;
/// nothing is promised of which value comes back.
pub assume_specification<T>[ rand::random::<T> ]() -> (r: T)
    where
        rand::distr::StandardUniform: rand::distr::Distribution<T>,
;

/// The 8-bit wraparound of a 16-bit intermediate value.
fn low8(v: u16) -> (r: u8)
    ensures
        r == wrap8(v as int),
{
    proof {
        assert((v & 0xFF) == v % 256) by (bit_vector);
    }
    (v & 0xFF) as u8
}

/// Registers, index register, program counter, call stack and timers of the
/// virtual CPU, together with the system state it executes against.
pub struct Cpu {
    regs: Vec<u8>,
    stack: Vec<u16>,
    sys: System,
    idx: u16,
    pc: u16,
    delay: u8,
    sound: u8,
}

impl View for Cpu {
    type V = CpuModel;

    closed spec fn view(&self) -> CpuModel {
        CpuModel {
            regs: self.regs@,
            stack: self.stack@,
            idx: self.idx,
            pc: self.pc,
            delay: self.delay,
            sound: self.sound,
            sys: self.sys@,
        }
    }
}

impl Cpu {
    /// The state sizes are the fixed ones.
    pub open spec fn wf(&self) -> bool {
        self@.inv()
    }

    /// A fresh CPU: everything zero except the program counter, which
    /// starts at 0x200 where programs load; the call stack is empty.
    pub fn new() -> (c: Cpu)
        ensures
            c.wf(),
            c@.pc == PC_INIT,
            c@.idx == 0,
            c@.delay == 0,
            c@.sound == 0,
            c@.stack == Seq::<u16>::empty(),
            forall|i: int| 0 <= i < NUM_REGS ==> c@.regs[i] == 0u8,
            forall|i: int| 0 <= i < SIZE_MEM ==> c@.sys.mem[i] == 0u8,
            forall|i: int| 0 <= i < SIZE_GFX ==> !c@.sys.gfx[i],
            forall|i: int| 0 <= i < SIZE_KEYS ==> !c@.sys.keys[i],
    {
        let c = Cpu {
            regs: vec![0u8; NUM_REGS],
            stack: Vec::new(),
            sys: System::new(),
            idx: 0,
            pc: PC_INIT,
            delay: 0,
            sound: 0,
        };
        proof {
            assert(c@.stack =~= Seq::<u16>::empty());
        }
        c
    }

    /// Reads register `Vr`.
    pub fn get_r(&self, r: u8) -> (v: u8)
        requires
            self.wf(),
            r < NUM_REGS,
        ensures
            v == self@.regs[r as int],
    {
        self.regs[r as usize]
    }

    /// Writes register `Vr`.
    pub fn set_r(&mut self, r: u8, n: u8)
        requires
            old(self).wf(),
            r < NUM_REGS,
        ensures
            final(self).wf(),
            final(self)@ == (CpuModel { regs: old(self)@.regs.update(r as int, n), ..old(self)@ }),
    {
        self.regs[r as usize] = n;
    }

    /// The current program counter.
    pub fn pc(&self) -> (p: u16)
        ensures
            p == self@.pc,
    {
        self.pc
    }

    /// Sets the program counter; the driver uses this to start a program at
    /// an address other than the default.
    pub fn set_pc(&mut self, pc: u16)
        requires
            old(self).wf(),
        ensures
            final(self).wf(),
            final(self)@ == (CpuModel { pc: pc, ..old(self)@ }),
    {
        self.pc = pc;
    }

    /// The current index register.
    pub fn index(&self) -> (i: u16)
        ensures
            i == self@.idx,
    {
        self.idx
    }

    /// Sets the index register.
    pub fn set_index(&mut self, i: u16)
        requires
            old(self).wf(),
        ensures
            final(self).wf(),
            final(self)@ == (CpuModel { idx: i, ..old(self)@ }),
    {
        self.idx = i;
    }

    /// The current delay timer value.
    pub fn delay(&self) -> (d: u8)
        ensures
            d == self@.delay,
    {
        self.delay
    }

    /// The current sound timer value.
    pub fn sound(&self) -> (s: u8)
        ensures
            s == self@.sound,
    {
        self.sound
    }

    /// The current call-stack depth.
    pub fn stack_depth(&self) -> (d: usize)
        ensures
            d == self@.stack.len(),
    {
        self.stack.len()
    }

    /// Reads the memory byte at `a`; the loader and driver side of the
    /// memory interface.
    pub fn read_mem(&self, a: usize) -> (b: u8)
        requires
            self.wf(),
            a < SIZE_MEM,
        ensures
            b == self@.sys.mem[a as int],
    {
        self.sys.get_mem(a)
    }

    /// Writes the memory byte at `a`; the loader writes the program image
    /// through this before the first step.
    pub fn write_mem(&mut self, a: usize, b: u8)
        requires
            old(self).wf(),
            a < SIZE_MEM,
        ensures
            final(self).wf(),
            final(self)@ == (CpuModel {
                sys: SysModel { mem: old(self)@.sys.mem.update(a as int, b), ..old(self)@.sys },
                ..old(self)@
            }),
    {
        self.sys.set_mem(a, b);
    }

    /// Reads the display pixel at row-major position `p`; the display sink
    /// presents the buffer through this.
    pub fn get_pixel(&self, p: usize) -> (on: bool)
        requires
            self.wf(),
            p < SIZE_GFX,
        ensures
            on == self@.sys.gfx[p as int],
    {
        self.sys.get_pixel(p)
    }

    /// Sets the pressed state of key `k`; the keypad collaborator drives
    /// this.
    pub fn set_key(&mut self, k: u8, pressed: bool)
        requires
            old(self).wf(),
            k < SIZE_KEYS,
        ensures
            final(self).wf(),
            final(self)@ == (CpuModel {
                sys: SysModel {
                    keys: old(self)@.sys.keys.update(k as int, pressed),
                    ..old(self)@.sys
                },
                ..old(self)@
            }),
    {
        self.sys.set_key(k, pressed);
    }

    /// The 60 Hz hook: decrements each timer that is nonzero and holds the
    /// ones at zero.
    pub fn tick_timers(&mut self)
        requires
            old(self).wf(),
        ensures
            final(self).wf(),
            final(self)@ == (CpuModel {
                delay: if old(self)@.delay > 0 {
                    (old(self)@.delay - 1) as u8
                } else {
                    0u8
                },
                sound: if old(self)@.sound > 0 {
                    (old(self)@.sound - 1) as u8
                } else {
                    0u8
                },
                ..old(self)@
            }),
    {
        if self.delay > 0 {
            self.delay = self.delay - 1;
        }
        if self.sound > 0 {
            self.sound = self.sound - 1;
        }
    }

    /// One fetch-decode-execute step: fetches the big-endian word at the
    /// program counter, decodes it, advances the counter past it, and
    /// applies the instruction. Every failure — a fetch that would run past
    /// memory, an unknown opcode, a stack discipline violation, an
    /// instruction reaching past memory — is surfaced and leaves the state
    /// exactly as it was.
    pub fn cycle(&mut self) -> (r: Result<(), StepError>)
        requires
            old(self).wf(),
        ensures
            final(self).wf(),
            cycle_rel(old(self)@, final(self)@, r),
    {
        let pc = self.pc;
        match self.fetch() {
            Err(e) => Err(e),
            Ok(w) => match decode::decode(w) {
                Err(e) => {
                    self.pc = pc;
                    Err(StepError::Decode(e))
                },
                Ok(instr) => {
                    let res = self.execute(instr);
                    if res.is_err() {
                        self.pc = pc;
                        proof {
                            assert(final(self)@ == old(self)@);
                        }
                    }
                    res
                },
            },
        }
    }

    /// Reads the two bytes at the program counter, combines them big-endian
    /// into an opcode word, and advances the counter past them; fails, with
    /// nothing changed, when the word would reach past the end of memory.
    fn fetch(&mut self) -> (r: Result<u16, StepError>)
        requires
            old(self).wf(),
        ensures
            final(self).wf(),
            if old(self)@.pc as int + 1 >= SIZE_MEM as int {
                r == Err::<u16, StepError>(StepError::Memory(MemoryError::OutOfBounds(
                    old(self)@.pc,
                ))) && final(self)@ == old(self)@
            } else {
                r == Ok::<u16, StepError>(word_at(old(self)@, old(self)@.pc as int))
                    && final(self)@ == advance(old(self)@)
            },
    {
        let pc = self.pc;
        if pc as usize >= SIZE_MEM - 1 {
            return Err(StepError::Memory(MemoryError::OutOfBounds(pc)));
        }
        let b0 = self.sys.get_mem(pc as usize);
        let b1 = self.sys.get_mem(pc as usize + 1);
        self.pc = pc + 2;
        Ok(((b0 as u16) << 8) | (b1 as u16))
    }

    /// Applies one decoded instruction to the state; the program counter
    /// must already point just past the word the instruction was fetched
    /// from. On an error nothing changes.
    pub fn execute(&mut self, instr: Instruction) -> (r: Result<(), StepError>)
        requires
            old(self).wf(),
            instr.wf(),
            2 <= old(self)@.pc <= 0xFFFD,
        ensures
            final(self).wf(),
            match exec_err(old(self)@, instr) {
                Some(e) => r == Err::<(), StepError>(e) && final(self)@ == old(self)@,
                None => r is Ok && exec_ok(old(self)@, final(self)@, instr),
            },
    {
        match instr {
            Instruction::Cls => {
                self.sys.clear_gfx();
                proof {
                    assert(self@.sys.gfx =~= Seq::new(SIZE_GFX as nat, |p: int| false));
                }
                Ok(())
            },
            Instruction::Ret => {
                if self.stack.len() == 0 {
                    return Err(StepError::Control(ControlError::StackUnderflow));
                }
                let a = self.stack.pop().unwrap();
                self.pc = a;
                Ok(())
            },
            Instruction::Sys(_) => Ok(()),
            Instruction::Jump(a) => {
                self.pc = a;
                Ok(())
            },
            Instruction::Call(a) => {
                if self.stack.len() >= SIZE_STACK {
                    return Err(StepError::Control(ControlError::StackOverflow));
                }
                self.stack.push(self.pc);
                self.pc = a;
                Ok(())
            },
            Instruction::SkipEqImm(x, k) => {
                if self.regs[x as usize] == k {
                    self.pc = self.pc + 2;
                }
                Ok(())
            },
            Instruction::SkipNeImm(x, k) => {
                if self.regs[x as usize] != k {
                    self.pc = self.pc + 2;
                }
                Ok(())
            },
            Instruction::SkipEqReg(x, y) => {
                if self.regs[x as usize] == self.regs[y as usize] {
                    self.pc = self.pc + 2;
                }
                Ok(())
            },
            Instruction::SkipNeReg(x, y) => {
                if self.regs[x as usize] != self.regs[y as usize] {
                    self.pc = self.pc + 2;
                }
                Ok(())
            },
            Instruction::LoadImm(x, k) => {
                self.regs[x as usize] = k;
                Ok(())
            },
            Instruction::AddImm(x, k) => {
                let a = self.regs[x as usize];
                let val = low8(a as u16 + k as u16);
                self.regs[x as usize] = val;
                Ok(())
            },
            Instruction::LoadReg(x, y) => {
                let v = self.regs[y as usize];
                self.regs[x as usize] = v;
                Ok(())
            },
            Instruction::Or(x, y) => {
                let v = self.regs[x as usize] | self.regs[y as usize];
                self.regs[x as usize] = v;
                Ok(())
            },
            Instruction::And(x, y) => {
                let v = self.regs[x as usize] & self.regs[y as usize];
                self.regs[x as usize] = v;
                Ok(())
            },
            Instruction::Xor(x, y) => {
                let v = self.regs[x as usize] ^ self.regs[y as usize];
                self.regs[x as usize] = v;
                Ok(())
            },
            Instruction::AddReg(x, y) => {
                let a = self.regs[x as usize];
                let b = self.regs[y as usize];
                let s = a as u16 + b as u16;
                let flag: u8 = if s > 255 {
                    1
                } else {
                    0
                };
                let val = low8(s);
                self.regs[15] = flag;
                self.regs[x as usize] = val;
                Ok(())
            },
            Instruction::Sub(x, y) => {
                let a = self.regs[x as usize];
                let b = self.regs[y as usize];
                let flag: u8 = if a >= b {
                    1
                } else {
                    0
                };
                let val = low8(256 + a as u16 - b as u16);
                proof {
                    lemma_mod_add_multiples_vanish(a as int - b as int, 256);
                }
                self.regs[15] = flag;
                self.regs[x as usize] = val;
                Ok(())
            },
            Instruction::SubN(x, y) => {
                let a = self.regs[x as usize];
                let b = self.regs[y as usize];
                let flag: u8 = if b >= a {
                    1
                } else {
                    0
                };
                let val = low8(256 + b as u16 - a as u16);
                proof {
                    lemma_mod_add_multiples_vanish(b as int - a as int, 256);
                }
                self.regs[15] = flag;
                self.regs[x as usize] = val;
                Ok(())
            },
            Instruction::ShiftRight(x) => {
                let v = self.regs[x as usize];
                self.regs[15] = v % 2;
                self.regs[x as usize] = v / 2;
                Ok(())
            },
            Instruction::ShiftLeft(x) => {
                let v = self.regs[x as usize];
                let val = low8(2 * (v as u16));
                self.regs[15] = v / 128;
                self.regs[x as usize] = val;
                Ok(())
            },
            Instruction::LoadIndex(a) => {
                self.idx = a;
                Ok(())
            },
            Instruction::JumpOffset(a) => {
                self.pc = a + self.regs[0] as u16;
                Ok(())
            },
            Instruction::Random(x, k) => {
                let b: u8 = rand::random();
                self.regs[x as usize] = b & k;
                proof {
                    assert(final(self)@ == (CpuModel {
                        regs: old(self)@.regs.update(x as int, b & k),
                        ..old(self)@
                    }));
                }
                Ok(())
            },
            Instruction::Draw(x, y, n) => {
                if self.idx as usize + n as usize > SIZE_MEM {
                    return Err(StepError::Memory(MemoryError::OutOfBounds(self.idx)));
                }
                let base = self.idx as usize;
                let x0 = (self.regs[x as usize] % 64) as usize;
                let y0 = (self.regs[y as usize] % 32) as usize;
                let col = self.sys.draw_sprite(base, x0, y0, n as usize);
                let flag: u8 = if col {
                    1
                } else {
                    0
                };
                self.regs[15] = flag;
                Ok(())
            },
            Instruction::SkipKey(x) => {
                let v = self.regs[x as usize];
                let k = v & 0x0F;
                proof {
                    assert(v & 0x0F < 16) by (bit_vector);
                }
                if self.sys.key_pressed(k) {
                    self.pc = self.pc + 2;
                }
                Ok(())
            },
            Instruction::SkipNoKey(x) => {
                let v = self.regs[x as usize];
                let k = v & 0x0F;
                proof {
                    assert(v & 0x0F < 16) by (bit_vector);
                }
                if !self.sys.key_pressed(k) {
                    self.pc = self.pc + 2;
                }
                Ok(())
            },
            Instruction::LoadDelay(x) => {
                let d = self.delay;
                self.regs[x as usize] = d;
                Ok(())
            },
            Instruction::WaitKey(x) => {
                match self.sys.first_pressed_key() {
                    Some(k) => {
                        self.regs[x as usize] = k;
                        proof {
                            assert(final(self)@ == (CpuModel {
                                regs: old(self)@.regs.update(x as int, k),
                                ..old(self)@
                            }));
                        }
                    },
                    None => {
                        self.pc = self.pc - 2;
                    },
                }
                Ok(())
            },
            Instruction::SetDelay(x) => {
                self.delay = self.regs[x as usize];
                Ok(())
            },
            Instruction::SetSound(x) => {
                self.sound = self.regs[x as usize];
                Ok(())
            },
            Instruction::AddIndex(x) => {
                let v = self.regs[x as usize];
                let s: u32 = self.idx as u32 + v as u32;
                proof {
                    assert((s & 0xFFFF) == s % 0x10000) by (bit_vector);
                }
                self.idx = (s & 0xFFFF) as u16;
                Ok(())
            },
            Instruction::SpriteAddr(x) => {
                let v = self.regs[x as usize];
                let d = v & 0x0F;
                proof {
                    assert(v & 0x0F < 16) by (bit_vector);
                }
                self.idx = 5 * (d as u16);
                Ok(())
            },
            Instruction::BcdStore(x) => {
                if self.idx as usize + 2 >= SIZE_MEM {
                    return Err(StepError::Memory(MemoryError::OutOfBounds(self.idx)));
                }
                let base = self.idx as usize;
                let v = self.regs[x as usize];
                self.sys.set_mem(base, v / 100);
                self.sys.set_mem(base + 1, (v / 10) % 10);
                self.sys.set_mem(base + 2, v % 10);
                Ok(())
            },
            Instruction::RegDump(x) => {
                if self.idx as usize + x as usize >= SIZE_MEM {
                    return Err(StepError::Memory(MemoryError::OutOfBounds(self.idx)));
                }
                let base = self.idx as usize;
                let xu = x as usize;
                let mut j: usize = 0;
                while j <= xu
                    invariant
                        self.wf(),
                        j <= xu + 1,
                        xu < NUM_REGS,
                        base == old(self)@.idx,
                        base + xu < SIZE_MEM,
                        self@.regs == old(self)@.regs,
                        self@.stack == old(self)@.stack,
                        self@.idx == old(self)@.idx,
                        self@.pc == old(self)@.pc,
                        self@.delay == old(self)@.delay,
                        self@.sound == old(self)@.sound,
                        self@.sys.gfx == old(self)@.sys.gfx,
                        self@.sys.keys == old(self)@.sys.keys,
                        forall|p: int|
                            0 <= p < SIZE_MEM ==> self@.sys.mem[p] == (if base <= p < base + j {
                                old(self)@.regs[p - base]
                            } else {
                                old(self)@.sys.mem[p]
                            }),
                    decreases xu + 1 - j,
                {
                    let v = self.regs[j];
                    self.sys.set_mem(base + j, v);
                    j += 1;
                }
                proof {
                    assert(self@.sys.mem =~= Seq::new(
                        SIZE_MEM as nat,
                        |p: int|
                            if old(self)@.idx as int <= p <= old(self)@.idx as int + x as int {
                                old(self)@.regs[p - old(self)@.idx as int]
                            } else {
                                old(self)@.sys.mem[p]
                            },
                    ));
                }
                Ok(())
            },
            Instruction::RegLoad(x) => {
                if self.idx as usize + x as usize >= SIZE_MEM {
                    return Err(StepError::Memory(MemoryError::OutOfBounds(self.idx)));
                }
                let base = self.idx as usize;
                let xu = x as usize;
                let mut j: usize = 0;
                while j <= xu
                    invariant
                        self.wf(),
                        j <= xu + 1,
                        xu < NUM_REGS,
                        base == old(self)@.idx,
                        base + xu < SIZE_MEM,
                        self@.stack == old(self)@.stack,
                        self@.idx == old(self)@.idx,
                        self@.pc == old(self)@.pc,
                        self@.delay == old(self)@.delay,
                        self@.sound == old(self)@.sound,
                        self@.sys == old(self)@.sys,
                        forall|t: int|
                            0 <= t < NUM_REGS ==> self@.regs[t] == (if 0 <= t < j {
                                old(self)@.sys.mem[base + t]
                            } else {
                                old(self)@.regs[t]
                            }),
                    decreases xu + 1 - j,
                {
                    let v = self.sys.get_mem(base + j);
                    self.regs[j] = v;
                    j += 1;
                }
                proof {
                    assert(self@.regs =~= Seq::new(
                        NUM_REGS as nat,
                        |t: int|
                            if t <= x as int {
                                old(self)@.sys.mem[old(self)@.idx as int + t]
                            } else {
                                old(self)@.regs[t]
                            },
                    ));
                }
                Ok(())
            },
        }
    }
}

/// Law: a subroutine call followed by a return restores the program
/// counter to the instruction just after the call and leaves the stack,
/// registers and the rest of the state as they were.
pub proof fn lemma_call_return_round_trip(m0: CpuModel, m1: CpuModel, m2: CpuModel, a: u16)
    requires
        exec_err(m0, Instruction::Call(a)) is None,
        exec_ok(m0, m1, Instruction::Call(a)),
        exec_ok(m1, m2, Instruction::Ret),
    ensures
        exec_err(m1, Instruction::Ret) is None,
        m2 == m0,
{
    assert(m1.stack.len() > 0);
    assert(m0.stack.push(m0.pc).drop_last() =~= m0.stack);
    assert(m0.stack.push(m0.pc).last() == m0.pc);
}

/// Law: drawing the same sprite twice at the same coordinates restores
/// every pixel to its previous state, and the second draw reports a
/// collision exactly when some on-screen pixel of the sprite was off
/// before the first draw (the first draw turned exactly those on). In
/// particular, over a clear area the two draws cancel and the second one
/// sets `VF` whenever the sprite plots any pixel at all.
pub proof fn lemma_draw_twice(m0: CpuModel, m1: CpuModel, m2: CpuModel, x: u8, y: u8, n: u8)
    requires
        m0.inv(),
        x < 15,
        y < 15,
        exec_ok(m0, m1, Instruction::Draw(x, y, n)),
        exec_ok(m1, m2, Instruction::Draw(x, y, n)),
    ensures
        m2.sys.gfx == m0.sys.gfx,
        m2.regs[15] == bool_flag(
            exists|p: int|
                0 <= p < SIZE_GFX && sprite_hits(
                    m0.sys.mem,
                    m0.idx as int,
                    m0.regs[x as int] as int % 64,
                    m0.regs[y as int] as int % 32,
                    n as int,
                    p,
                ) && !m0.sys.gfx[p],
        ),
{
    let x0 = m0.regs[x as int] as int % 64;
    let y0 = m0.regs[y as int] as int % 32;
    let base = m0.idx as int;
    let ni = n as int;
    assert(m1.regs[x as int] == m0.regs[x as int]);
    assert(m1.regs[y as int] == m0.regs[y as int]);
    assert(m2.sys.gfx =~= m0.sys.gfx);
    if draw_collides(m1.sys.gfx, m0.sys.mem, base, x0, y0, ni) {
        let p = choose|p: int|
            0 <= p < SIZE_GFX && sprite_hits(m0.sys.mem, base, x0, y0, ni, p) && m1.sys.gfx[p];
        assert(m1.sys.gfx[p] == (m0.sys.gfx[p] != true));
        assert(!m0.sys.gfx[p]);
    }
    if exists|p: int|
        0 <= p < SIZE_GFX && sprite_hits(m0.sys.mem, base, x0, y0, ni, p) && !m0.sys.gfx[p] {
        let p = choose|p: int|
            0 <= p < SIZE_GFX && sprite_hits(m0.sys.mem, base, x0, y0, ni, p) && !m0.sys.gfx[p];
        assert(m1.sys.gfx[p]);
        assert(draw_collides(m1.sys.gfx, m0.sys.mem, base, x0, y0, ni));
    }
}

} // verus!

