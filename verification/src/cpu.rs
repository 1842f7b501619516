use vstd::prelude::*;

use crate::error::Chip8Error;
use crate::frame_buffer::{blank_frame, FrameBuffer, FRAME_BUFFER_COLS, FRAME_BUFFER_SIZE};
use crate::instruction::{instr_wf, spec_decode, Instruction};
use crate::key_matrix::{key_index, spec_key_of, Chip8Key, KeyMatrix};
use crate::memory::{Memory, FONT_START_ADDR, MEMORY_SIZE, ROM_START_ADDR};

verus! {

/// What one executed instruction asks of the scheduler besides the register
/// and memory changes: nothing, a redraw notification, or a suspension until
/// the next key release.
#[derive(Clone, Copy, Debug, PartialEq, Eq, Structural)]
pub enum Effect {
    /// Plain instruction; execution continues.
    Proceed,
    /// The frame changed (draw or clear); exactly one redraw is owed.
    Drew,
    /// Await a key release; its value goes into register `vx`.
    AwaitKey { vx: u8 },
}

/// The register file as a mathematical value.
#[verifier::ext_equal]
pub ghost struct CpuView {
    pub v: Seq<u8>,
    pub i: u16,
    pub pc: u16,
    pub sp: u8,
    pub dt: u8,
    pub st: u8,
    pub stack: Seq<u16>,
}

impl CpuView {
    pub open spec fn wf(self) -> bool {
        self.v.len() == 16 && self.stack.len() == 16 && self.sp <= 16
    }

    pub open spec fn with_pc(self, pc: u16) -> CpuView {
        CpuView { pc, ..self }
    }

    pub open spec fn with_v(self, v: Seq<u8>) -> CpuView {
        CpuView { v, ..self }
    }
}

/// Addition on bytes that wraps modulo 256.
pub open spec fn wrap_add_u8(a: u8, b: u8) -> u8 {
    ((a + b) % 256) as u8
}

/// Subtraction on bytes that wraps modulo 256.
pub open spec fn wrap_sub_u8(a: u8, b: u8) -> u8 {
    ((a + 256 - b) % 256) as u8
}

/// One 60Hz step of a timer: down by one, never below zero.
pub open spec fn spec_tick60(t: u8) -> u8 {
    if t > 0 {
        (t - 1) as u8
    } else {
        0
    }
}

/// A timer's reading after `n` 60Hz steps.
pub open spec fn tick60_n(t: u8, n: nat) -> u8
    decreases n,
{
    if n == 0 {
        t
    } else {
        spec_tick60(tick60_n(t, (n - 1) as nat))
    }
}

/// Law: repeated 60Hz steps take a timer monotonically down to zero and
/// never below it: after `n` steps the timer reads its start minus `n`,
/// floored at zero.
pub proof fn lemma_timer_floor(t: u8, n: nat)
    ensures
        tick60_n(t, n) == if n <= t {
            (t - n) as u8
        } else {
            0u8
        },
    decreases n,
{
    if n > 0 {
        lemma_timer_floor(t, (n - 1) as nat);
    }
}

/// The big-endian opcode stored at `pc`.
pub open spec fn opcode_at(mem: Seq<u8>, pc: int) -> u16 {
    ((mem[pc] as u16) << 8u16) | (mem[pc + 1] as u16)
}

/// Bit `col` (counted from the left, 0 through 7) of one sprite row.
pub open spec fn sprite_row_bit(row_byte: u8, col: int) -> bool {
    (row_byte >> ((7 - col) as u8)) & 1 == 1
}

/// The frame after XOR-blitting `sprite` with its top-left corner at
/// (`x`, `y`). Pixels are addressed row-major; rows and columns that would
/// fall past the right or bottom edge are clipped, not wrapped.
pub open spec fn fb_after_draw(fb: Seq<bool>, sprite: Seq<u8>, x: int, y: int) -> Seq<bool> {
    Seq::new(
        FRAME_BUFFER_SIZE as nat,
        |p: int|
            {
                let py = p / FRAME_BUFFER_COLS as int;
                let px = p % FRAME_BUFFER_COLS as int;
                if y <= py < y + sprite.len() && x <= px < x + 8 {
                    fb[p] != sprite_row_bit(sprite[py - y], px - x)
                } else {
                    fb[p]
                }
            },
    )
}

/// Whether any pixel that was on in `pre` is off in `post`.
pub open spec fn any_pixel_erased(pre: Seq<bool>, post: Seq<bool>) -> bool {
    exists|p: int| 0 <= p < FRAME_BUFFER_SIZE && pre[p] && !post[p]
}

/// The exact effect of executing one decoded instruction: how the registers,
/// memory and frame change, which result comes back, and when each fault is
/// reported. `keys` is the pressed state of the sixteen keys at that moment.
pub open spec fn execute_rel(
    pre: CpuView,
    mem_pre: Seq<u8>,
    fb_pre: Seq<bool>,
    keys: Seq<bool>,
    instr: Instruction,
    post: CpuView,
    mem_post: Seq<u8>,
    fb_post: Seq<bool>,
    r: Result<Effect, Chip8Error>,
) -> bool {
    match instr {
        Instruction::Cls => r == Ok::<Effect, Chip8Error>(Effect::Drew) && post == pre && mem_post
            == mem_pre && fb_post == blank_frame(),
        Instruction::Ret => if pre.sp == 0 {
            r == Err::<Effect, Chip8Error>(Chip8Error::StackUnderflow) && post == pre && mem_post
                == mem_pre && fb_post == fb_pre
        } else {
            r == Ok::<Effect, Chip8Error>(Effect::Proceed) && post == (CpuView {
                sp: (pre.sp - 1) as u8,
                pc: pre.stack[pre.sp - 1],
                ..pre
            }) && mem_post == mem_pre && fb_post == fb_pre
        },
        Instruction::Call { addr } => if pre.sp >= 16 {
            r == Err::<Effect, Chip8Error>(Chip8Error::StackOverflow) && post == pre && mem_post
                == mem_pre && fb_post == fb_pre
        } else {
            r == Ok::<Effect, Chip8Error>(Effect::Proceed) && post == (CpuView {
                stack: pre.stack.update(pre.sp as int, pre.pc),
                sp: (pre.sp + 1) as u8,
                pc: addr,
                ..pre
            }) && mem_post == mem_pre && fb_post == fb_pre
        },
        Instruction::Jp { addr } => r == Ok::<Effect, Chip8Error>(Effect::Proceed) && post
            == pre.with_pc(addr) && mem_post == mem_pre && fb_post == fb_pre,
        Instruction::JpV0 { addr } => r == Ok::<Effect, Chip8Error>(Effect::Proceed) && post
            == pre.with_pc((addr + pre.v[0]) as u16) && mem_post == mem_pre && fb_post == fb_pre,
        Instruction::LdI { addr } => r == Ok::<Effect, Chip8Error>(Effect::Proceed) && post
            == (CpuView { i: addr, ..pre }) && mem_post == mem_pre && fb_post == fb_pre,
        Instruction::LdByte { vx, byte } => r == Ok::<Effect, Chip8Error>(Effect::Proceed) && post
            == pre.with_v(pre.v.update(vx as int, byte)) && mem_post == mem_pre && fb_post
            == fb_pre,
        Instruction::AddByte { vx, byte } => r == Ok::<Effect, Chip8Error>(Effect::Proceed) && post
            == pre.with_v(pre.v.update(vx as int, wrap_add_u8(pre.v[vx as int], byte))) && mem_post
            == mem_pre && fb_post == fb_pre,
        Instruction::Drw { vx, vy, nibble } => {
            let x = pre.v[vx as int] as int % 64;
            let y = pre.v[vy as int] as int % 32;
            if nibble == 0 || pre.i + nibble <= MEMORY_SIZE {
                let sprite = if nibble == 0 {
                    Seq::<u8>::empty()
                } else {
                    mem_pre.subrange(pre.i as int, pre.i + nibble)
                };
                let drawn = fb_after_draw(fb_pre, sprite, x, y);
                r == Ok::<Effect, Chip8Error>(Effect::Drew) && fb_post == drawn && post
                    == pre.with_v(
                    pre.v.update(
                        15,
                        if any_pixel_erased(fb_pre, drawn) {
                            1u8
                        } else {
                            0u8
                        },
                    ),
                ) && mem_post == mem_pre
            } else {
                r == Err::<Effect, Chip8Error>(Chip8Error::OutOfBoundsAccess) && post == pre
                    && mem_post == mem_pre && fb_post == fb_pre
            }
        },
        Instruction::SeByte { vx, byte } => r == Ok::<Effect, Chip8Error>(Effect::Proceed) && post
            == pre.with_pc(
            if pre.v[vx as int] == byte {
                (pre.pc + 2) as u16
            } else {
                pre.pc
            },
        ) && mem_post == mem_pre && fb_post == fb_pre,
        Instruction::SeReg { vx, vy } => r == Ok::<Effect, Chip8Error>(Effect::Proceed) && post
            == pre.with_pc(
            if pre.v[vx as int] == pre.v[vy as int] {
                (pre.pc + 2) as u16
            } else {
                pre.pc
            },
        ) && mem_post == mem_pre && fb_post == fb_pre,
        Instruction::SneByte { vx, byte } => r == Ok::<Effect, Chip8Error>(Effect::Proceed) && post
            == pre.with_pc(
            if pre.v[vx as int] != byte {
                (pre.pc + 2) as u16
            } else {
                pre.pc
            },
        ) && mem_post == mem_pre && fb_post == fb_pre,
        Instruction::SneReg { vx, vy } => r == Ok::<Effect, Chip8Error>(Effect::Proceed) && post
            == pre.with_pc(
            if pre.v[vx as int] != pre.v[vy as int] {
                (pre.pc + 2) as u16
            } else {
                pre.pc
            },
        ) && mem_post == mem_pre && fb_post == fb_pre,
        Instruction::LdReg { vx, vy } => r == Ok::<Effect, Chip8Error>(Effect::Proceed) && post
            == pre.with_v(pre.v.update(vx as int, pre.v[vy as int])) && mem_post == mem_pre
            && fb_post == fb_pre,
        Instruction::OrReg { vx, vy } => r == Ok::<Effect, Chip8Error>(Effect::Proceed) && post
            == pre.with_v(pre.v.update(vx as int, pre.v[vx as int] | pre.v[vy as int])) && mem_post
            == mem_pre && fb_post == fb_pre,
        Instruction::AndReg { vx, vy } => r == Ok::<Effect, Chip8Error>(Effect::Proceed) && post
            == pre.with_v(pre.v.update(vx as int, pre.v[vx as int] & pre.v[vy as int])) && mem_post
            == mem_pre && fb_post == fb_pre,
        Instruction::XorReg { vx, vy } => r == Ok::<Effect, Chip8Error>(Effect::Proceed) && post
            == pre.with_v(pre.v.update(vx as int, pre.v[vx as int] ^ pre.v[vy as int])) && mem_post
            == mem_pre && fb_post == fb_pre,
        Instruction::AddRegCarry { vx, vy } => {
            let sum = pre.v[vx as int] + pre.v[vy as int];
            let flag: u8 = if sum > 255 {
                1
            } else {
                0
            };
            r == Ok::<Effect, Chip8Error>(Effect::Proceed) && post == pre.with_v(
                pre.v.update(vx as int, (sum % 256) as u8).update(15, flag),
            ) && mem_post == mem_pre && fb_post == fb_pre
        },
        Instruction::SubReg { vx, vy } => {
            let flag: u8 = if pre.v[vx as int] >= pre.v[vy as int] {
                1
            } else {
                0
            };
            r == Ok::<Effect, Chip8Error>(Effect::Proceed) && post == pre.with_v(
                pre.v.update(
                    vx as int,
                    wrap_sub_u8(pre.v[vx as int], pre.v[vy as int]),
                ).update(15, flag),
            ) && mem_post == mem_pre && fb_post == fb_pre
        },
        Instruction::SubNReg { vx, vy } => {
            let flag: u8 = if pre.v[vy as int] >= pre.v[vx as int] {
                1
            } else {
                0
            };
            r == Ok::<Effect, Chip8Error>(Effect::Proceed) && post == pre.with_v(
                pre.v.update(
                    vx as int,
                    wrap_sub_u8(pre.v[vy as int], pre.v[vx as int]),
                ).update(15, flag),
            ) && mem_post == mem_pre && fb_post == fb_pre
        },
        Instruction::Shr { vx } => {
            let flag: u8 = if pre.v[vx as int] % 2 == 1 {
                1
            } else {
                0
            };
            r == Ok::<Effect, Chip8Error>(Effect::Proceed) && post == pre.with_v(
                pre.v.update(vx as int, pre.v[vx as int] / 2).update(15, flag),
            ) && mem_post == mem_pre && fb_post == fb_pre
        },
        Instruction::Shl { vx } => {
            let flag: u8 = if pre.v[vx as int] >= 128 {
                1
            } else {
                0
            };
            r == Ok::<Effect, Chip8Error>(Effect::Proceed) && post == pre.with_v(
                pre.v.update(vx as int, ((pre.v[vx as int] * 2) % 256) as u8).update(15, flag),
            ) && mem_post == mem_pre && fb_post == fb_pre
        },
        Instruction::KeyWait { vx } => r == Ok::<Effect, Chip8Error>(Effect::AwaitKey { vx })
            && post == pre && mem_post == mem_pre && fb_post == fb_pre,
        Instruction::Store { vx } => {
            let base = pre.i as int;
            mem_post == store_upto(mem_pre, base, vx + 1, pre.v) && post == pre && fb_post
                == fb_pre && (if base + vx < MEMORY_SIZE {
                r == Ok::<Effect, Chip8Error>(Effect::Proceed)
            } else {
                r == Err::<Effect, Chip8Error>(Chip8Error::OutOfBoundsAccess)
            })
        },
        Instruction::Read { vx } => {
            let base = pre.i as int;
            post == pre.with_v(read_upto(pre.v, mem_pre, base, vx + 1)) && mem_post == mem_pre
                && fb_post == fb_pre && (if base + vx < MEMORY_SIZE {
                r == Ok::<Effect, Chip8Error>(Effect::Proceed)
            } else {
                r == Err::<Effect, Chip8Error>(Chip8Error::OutOfBoundsAccess)
            })
        },
        Instruction::StoreBcd { vx } => {
            let base = pre.i as int;
            let val = pre.v[vx as int];
            mem_post == bcd_mem(mem_pre, base, val) && post == pre && fb_post == fb_pre && (if base
                + 2 < MEMORY_SIZE {
                r == Ok::<Effect, Chip8Error>(Effect::Proceed)
            } else {
                r == Err::<Effect, Chip8Error>(Chip8Error::OutOfBoundsAccess)
            })
        },
        Instruction::LdRegDt { vx } => r == Ok::<Effect, Chip8Error>(Effect::Proceed) && post
            == pre.with_v(pre.v.update(vx as int, pre.dt)) && mem_post == mem_pre && fb_post
            == fb_pre,
        Instruction::LdFont { vx } => r == Ok::<Effect, Chip8Error>(Effect::Proceed) && post
            == (CpuView { i: (FONT_START_ADDR + pre.v[vx as int] * 5) as u16, ..pre }) && mem_post
            == mem_pre && fb_post == fb_pre,
        Instruction::LdDt { vx } => r == Ok::<Effect, Chip8Error>(Effect::Proceed) && post
            == (CpuView { dt: pre.v[vx as int], ..pre }) && mem_post == mem_pre && fb_post
            == fb_pre,
        Instruction::LdSt { vx } => r == Ok::<Effect, Chip8Error>(Effect::Proceed) && post
            == (CpuView { st: pre.v[vx as int], ..pre }) && mem_post == mem_pre && fb_post
            == fb_pre,
        Instruction::Rnd { vx, byte } => r == Ok::<Effect, Chip8Error>(Effect::Proceed) && (exists|
            rb: u8,
        |
            post == pre.with_v(pre.v.update(vx as int, rb & byte))) && mem_post == mem_pre
            && fb_post == fb_pre,
        Instruction::Skp { vx } => r == Ok::<Effect, Chip8Error>(Effect::Proceed) && post
            == pre.with_pc(
            if keys[(pre.v[vx as int] % 16) as int] {
                (pre.pc + 2) as u16
            } else {
                pre.pc
            },
        ) && mem_post == mem_pre && fb_post == fb_pre,
        Instruction::Sknp { vx } => r == Ok::<Effect, Chip8Error>(Effect::Proceed) && post
            == pre.with_pc(
            if !keys[(pre.v[vx as int] % 16) as int] {
                (pre.pc + 2) as u16
            } else {
                pre.pc
            },
        ) && mem_post == mem_pre && fb_post == fb_pre,
        Instruction::AddI { vx } => r == Ok::<Effect, Chip8Error>(Effect::Proceed) && post
            == (CpuView { i: ((pre.i + pre.v[vx as int]) % 0x10000) as u16, ..pre }) && mem_post
            == mem_pre && fb_post == fb_pre,
        Instruction::Unknown { .. } => r == Ok::<Effect, Chip8Error>(Effect::Proceed)
            && post == pre && mem_post == mem_pre && fb_post == fb_pre,
    }
}

/// One whole instruction tick: fetch the big-endian opcode at `pc`, advance
/// `pc` by two, then execute per `execute_rel`. A fetch past the end of
/// memory faults without any state change.
pub open spec fn tick_rel(
    pre: CpuView,
    mem_pre: Seq<u8>,
    fb_pre: Seq<bool>,
    keys: Seq<bool>,
    post: CpuView,
    mem_post: Seq<u8>,
    fb_post: Seq<bool>,
    r: Result<Effect, Chip8Error>,
) -> bool {
    if pre.pc + 1 < MEMORY_SIZE {
        execute_rel(
            pre.with_pc((pre.pc + 2) as u16),
            mem_pre,
            fb_pre,
            keys,
            spec_decode(opcode_at(mem_pre, pre.pc as int)),
            post,
            mem_post,
            fb_post,
            r,
        )
    } else {
        r == Err::<Effect, Chip8Error>(Chip8Error::OutOfBoundsAccess) && post == pre && mem_post
            == mem_pre && fb_post == fb_pre
    }
}

/// The register file right after construction: everything zero, the program
/// counter at the ROM start.
pub open spec fn fresh_cpu() -> CpuView {
    CpuView {
        v: Seq::new(16, |k: int| 0u8),
        i: 0u16,
        pc: ROM_START_ADDR,
        sp: 0u8,
        dt: 0u8,
        st: 0u8,
        stack: Seq::new(16, |k: int| 0u16),
    }
}

/// Register file, stack and timers of the execution engine.
pub struct Cpu {
    v: Vec<u8>,
    i: u16,
    pc: u16,
    sp: u8,
    dt: u8,
    st: u8,
    stack: Vec<u16>,
}

impl View for Cpu {
    type V = CpuView;

    closed spec fn view(&self) -> CpuView {
        CpuView {
            v: self.v@,
            i: self.i,
            pc: self.pc,
            sp: self.sp,
            dt: self.dt,
            st: self.st,
            stack: self.stack@,
        }
    }
}

/// Relies on rand::random: returns one uniformly random byte from the thread
/// RNG. Nothing can be promised of the value.
#[verifier::external_body]
fn random_byte() -> u8 {
    rand::random::<u8>()
}

impl Cpu {
    pub open spec fn wf(&self) -> bool {
        self@.wf()
    }

    /// A fresh register file: everything zero, `pc` at the ROM start.
    pub fn new() -> (r: Cpu)
        ensures
            r.wf(),
            r@ == fresh_cpu(),
    {
        let r = Cpu {
            v: vec![0u8; 16],
            stack: vec![0u16; 16],
            i: 0,
            pc: ROM_START_ADDR,
            sp: 0,
            dt: 0,
            st: 0,
        };
        proof {
            assert(r@.v =~= fresh_cpu().v);
            assert(r@.stack =~= fresh_cpu().stack);
            assert(r@ =~= fresh_cpu());
        }
        r
    }

    /// A register file with exactly the given contents.
    pub fn from_parts(
        v: Vec<u8>,
        i: u16,
        pc: u16,
        sp: u8,
        dt: u8,
        st: u8,
        stack: Vec<u16>,
    ) -> (r: Cpu)
        requires
            v@.len() == 16,
            stack@.len() == 16,
            sp <= 16,
        ensures
            r.wf(),
            r@ == (CpuView { v: v@, i, pc, sp, dt, st, stack: stack@ }),
    {
        Cpu { v, i, pc, sp, dt, st, stack }
    }

    /// A copy of this register file with the same contents.
    pub fn duplicate(&self) -> (r: Cpu)
        ensures
            r@ == self@,
    {
        let v = self.v.clone();
        let stack = self.stack.clone();
        proof {
            assert(v@ =~= self.v@);
            assert(stack@ =~= self.stack@);
        }
        let r = Cpu {
            v,
            i: self.i,
            pc: self.pc,
            sp: self.sp,
            dt: self.dt,
            st: self.st,
            stack,
        };
        proof {
            assert(r@ =~= self@);
        }
        r
    }

    /// The value of general register `idx`.
    pub fn get_reg(&self, idx: u8) -> (r: u8)
        requires
            self.wf(),
            idx < 16,
        ensures
            r == self@.v[idx as int],
    {
        self.v[idx as usize]
    }

    /// Writes general register `idx`, leaving everything else as it was.
    pub fn set_reg(&mut self, idx: u8, val: u8)
        requires
            old(self).wf(),
            idx < 16,
        ensures
            final(self).wf(),
            final(self)@ == old(self)@.with_v(old(self)@.v.update(idx as int, val)),
    {
        self.v[idx as usize] = val;
    }

    /// The index register.
    pub fn get_i(&self) -> (r: u16)
        ensures
            r == self@.i,
    {
        self.i
    }

    /// The program counter.
    pub fn get_pc(&self) -> (r: u16)
        ensures
            r == self@.pc,
    {
        self.pc
    }

    /// The stack pointer.
    pub fn get_sp(&self) -> (r: u8)
        ensures
            r == self@.sp,
    {
        self.sp
    }

    /// The delay timer.
    pub fn get_dt(&self) -> (r: u8)
        ensures
            r == self@.dt,
    {
        self.dt
    }

    /// The sound timer.
    pub fn get_st(&self) -> (r: u8)
        ensures
            r == self@.st,
    {
        self.st
    }

    /// The return address stored at stack slot `idx`.
    pub fn stack_at(&self, idx: u8) -> (r: u16)
        requires
            self.wf(),
            idx < 16,
        ensures
            r == self@.stack[idx as int],
    {
        self.stack[idx as usize]
    }

    /// The 60Hz step: each timer goes down by one unless it is already zero;
    /// neither ever underflows.
    pub fn tick_60hz(&mut self)
        ensures
            final(self)@ == (CpuView {
                dt: spec_tick60(old(self)@.dt),
                st: spec_tick60(old(self)@.st),
                ..old(self)@
            }),
    {
        if self.dt > 0 {
            self.dt = self.dt - 1;
        }
        if self.st > 0 {
            self.st = self.st - 1;
        }
    }

    /// Fetches, decodes and executes one instruction, per `tick_rel`.
    pub fn tick(
        &mut self,
        memory: &mut Memory,
        frame_buffer: &mut FrameBuffer,
        key_matrix: &KeyMatrix,
    ) -> (r: Result<Effect, Chip8Error>)
        requires
            old(self).wf(),
            old(memory).wf(),
            old(frame_buffer).wf(),
        ensures
            final(self).wf(),
            final(memory).wf(),
            final(frame_buffer).wf(),
            tick_rel(
                old(self)@,
                old(memory)@,
                old(frame_buffer)@,
                key_matrix@,
                final(self)@,
                final(memory)@,
                final(frame_buffer)@,
                r,
            ),
    {
        let instruction = match self.get_next_instruction(memory) {
            Ok(instruction) => instruction,
            Err(e) => {
                return Err(e);
            },
        };
        self.execute(instruction, memory, frame_buffer, key_matrix)
    }

    /// Reads the two opcode bytes at `pc` and advances `pc` past them.
    fn get_next_instruction(&mut self, memory: &Memory) -> (r: Result<Instruction, Chip8Error>)
        requires
            old(self).wf(),
            memory.wf(),
        ensures
            final(self).wf(),
            old(self)@.pc + 1 < MEMORY_SIZE ==> r == Ok::<Instruction, Chip8Error>(
                spec_decode(opcode_at(memory@, old(self)@.pc as int)),
            ) && final(self)@ == old(self)@.with_pc((old(self)@.pc + 2) as u16) && instr_wf(
                r->Ok_0,
            ),
            old(self)@.pc + 1 >= MEMORY_SIZE ==> r == Err::<Instruction, Chip8Error>(
                Chip8Error::OutOfBoundsAccess,
            ) && final(self)@ == old(self)@,
    {
        let msb = match memory.read(self.pc) {
            Ok(b) => b,
            Err(e) => {
                return Err(e);
            },
        };
        let lsb = match memory.read(self.pc + 1) {
            Ok(b) => b,
            Err(e) => {
                return Err(e);
            },
        };

        self.pc = self.pc + 2;

        let opcode = ((msb as u16) << 8) | (lsb as u16);
        Ok(Instruction::decode(opcode))
    }

    /// Applies one decoded instruction to the machine, per `execute_rel`.
    #[verifier::loop_isolation(false)]
    pub fn execute(
        &mut self,
        instruction: Instruction,
        memory: &mut Memory,
        frame_buffer: &mut FrameBuffer,
        key_matrix: &KeyMatrix,
    ) -> (r: Result<Effect, Chip8Error>)
        requires
            old(self).wf(),
            old(memory).wf(),
            old(frame_buffer).wf(),
            instr_wf(instruction),
            old(self)@.pc <= MEMORY_SIZE,
        ensures
            final(self).wf(),
            final(memory).wf(),
            final(frame_buffer).wf(),
            execute_rel(
                old(self)@,
                old(memory)@,
                old(frame_buffer)@,
                key_matrix@,
                instruction,
                final(self)@,
                final(memory)@,
                final(frame_buffer)@,
                r,
            ),
    {
        match instruction {
            Instruction::Cls => {
                frame_buffer.load(FrameBuffer::new());
                Ok(Effect::Drew)
            },
            Instruction::Ret => {
                if self.sp == 0 {
                    return Err(Chip8Error::StackUnderflow);
                }
                self.sp = self.sp - 1;
                self.pc = self.stack[self.sp as usize];
                Ok(Effect::Proceed)
            },
            Instruction::Call { addr } => {
                if self.sp >= 16 {
                    return Err(Chip8Error::StackOverflow);
                }
                self.stack[self.sp as usize] = self.pc;
                self.sp = self.sp + 1;
                self.pc = addr;
                Ok(Effect::Proceed)
            },
            Instruction::Jp { addr } => {
                self.pc = addr;
                Ok(Effect::Proceed)
            },
            Instruction::JpV0 { addr } => {
                let v0_val = self.v[0];
                self.pc = addr + v0_val as u16;
                Ok(Effect::Proceed)
            },
            Instruction::LdI { addr } => {
                self.i = addr;
                Ok(Effect::Proceed)
            },
            Instruction::LdByte { vx, byte } => {
                self.v[vx as usize] = byte;
                Ok(Effect::Proceed)
            },
            Instruction::AddByte { vx, byte } => {
                let sum = self.v[vx as usize] as u16 + byte as u16;
                self.v[vx as usize] = (sum % 256) as u8;
                Ok(Effect::Proceed)
            },
            Instruction::Drw { vx, vy, nibble } => self.draw(vx, vy, nibble, memory, frame_buffer),
            Instruction::SeByte { vx, byte } => {
                if self.v[vx as usize] == byte {
                    self.pc = self.pc + 2;
                }
                Ok(Effect::Proceed)
            },
            Instruction::SeReg { vx, vy } => {
                if self.v[vx as usize] == self.v[vy as usize] {
                    self.pc = self.pc + 2;
                }
                Ok(Effect::Proceed)
            },
            Instruction::SneByte { vx, byte } => {
                if self.v[vx as usize] != byte {
                    self.pc = self.pc + 2;
                }
                Ok(Effect::Proceed)
            },
            Instruction::SneReg { vx, vy } => {
                if self.v[vx as usize] != self.v[vy as usize] {
                    self.pc = self.pc + 2;
                }
                Ok(Effect::Proceed)
            },
            Instruction::LdReg { vx, vy } => {
                self.v[vx as usize] = self.v[vy as usize];
                Ok(Effect::Proceed)
            },
            Instruction::OrReg { vx, vy } => {
                self.v[vx as usize] = self.v[vx as usize] | self.v[vy as usize];
                Ok(Effect::Proceed)
            },
            Instruction::AndReg { vx, vy } => {
                self.v[vx as usize] = self.v[vx as usize] & self.v[vy as usize];
                Ok(Effect::Proceed)
            },
            Instruction::XorReg { vx, vy } => {
                self.v[vx as usize] = self.v[vx as usize] ^ self.v[vy as usize];
                Ok(Effect::Proceed)
            },
            Instruction::AddRegCarry { vx, vy } => {
                let sum = self.v[vx as usize] as u16 + self.v[vy as usize] as u16;
                self.v[vx as usize] = (sum % 256) as u8;
                self.v[15] = if sum > 255 {
                    1
                } else {
                    0
                };
                Ok(Effect::Proceed)
            },
            Instruction::SubReg { vx, vy } => {
                let a = self.v[vx as usize];
                let b = self.v[vy as usize];
                self.v[vx as usize] = ((a as u16 + 256 - b as u16) % 256) as u8;
                self.v[15] = if a >= b {
                    1
                } else {
                    0
                };
                Ok(Effect::Proceed)
            },
            Instruction::SubNReg { vx, vy } => {
                let a = self.v[vx as usize];
                let b = self.v[vy as usize];
                self.v[vx as usize] = ((b as u16 + 256 - a as u16) % 256) as u8;
                self.v[15] = if b >= a {
                    1
                } else {
                    0
                };
                Ok(Effect::Proceed)
            },
            Instruction::Shr { vx } => {
                let vx_val = self.v[vx as usize];
                self.v[vx as usize] = vx_val / 2;
                self.v[15] = if vx_val % 2 == 1 {
                    1
                } else {
                    0
                };
                Ok(Effect::Proceed)
            },
            Instruction::Shl { vx } => {
                let vx_val = self.v[vx as usize];
                self.v[vx as usize] = ((vx_val as u16 * 2) % 256) as u8;
                self.v[15] = if vx_val >= 128 {
                    1
                } else {
                    0
                };
                Ok(Effect::Proceed)
            },
            Instruction::KeyWait { vx } => Ok(Effect::AwaitKey { vx }),
            Instruction::Store { vx } => {
                let base = self.i;
                let ghost mem_pre = memory@;
                proof {
                    assert(memory@ =~= store_upto(mem_pre, base as int, 0, old(self)@.v));
                }
                let mut offset: u16 = 0;
                while offset <= vx as u16
                    invariant
                        offset <= vx + 1,
                        offset > 0 ==> base + offset - 1 < MEMORY_SIZE,
                        memory@ == store_upto(mem_pre, base as int, offset as int, old(self)@.v),
                    decreases vx + 1 - offset,
                {
                    let addr = base as u32 + offset as u32;
                    if addr >= MEMORY_SIZE as u32 {
                        proof {
                            assert(store_upto(mem_pre, base as int, offset as int, old(self)@.v)
                                =~= store_upto(mem_pre, base as int, vx + 1, old(self)@.v));
                        }
                        return Err(Chip8Error::OutOfBoundsAccess);
                    }
                    let _ = memory.write(addr as u16, self.v[offset as usize]);
                    proof {
                        assert(memory@ =~= store_upto(
                            mem_pre,
                            base as int,
                            offset + 1,
                            old(self)@.v,
                        ));
                    }
                    offset = offset + 1;
                }
                Ok(Effect::Proceed)
            },
            Instruction::Read { vx } => {
                let base = self.i;
                let ghost v_pre = self@.v;
                proof {
                    assert(read_upto(v_pre, memory@, base as int, 0) =~= v_pre);
                }
                let mut offset: u16 = 0;
                while offset <= vx as u16
                    invariant
                        offset <= vx + 1,
                        offset > 0 ==> base + offset - 1 < MEMORY_SIZE,
                        self@ == old(self)@.with_v(
                            read_upto(v_pre, memory@, base as int, offset as int),
                        ),
                    decreases vx + 1 - offset,
                {
                    let addr = base as u32 + offset as u32;
                    if addr >= MEMORY_SIZE as u32 {
                        proof {
                            assert(read_upto(v_pre, memory@, base as int, offset as int)
                                =~= read_upto(v_pre, memory@, base as int, vx + 1));
                        }
                        return Err(Chip8Error::OutOfBoundsAccess);
                    }
                    let byte = match memory.read(addr as u16) {
                        Ok(b) => b,
                        Err(e) => {
                            proof {
                                assert(false);
                            }
                            return Err(e);
                        },
                    };
                    self.v[offset as usize] = byte;
                    proof {
                        assert(self@.v =~= read_upto(v_pre, memory@, base as int, offset + 1));
                    }
                    offset = offset + 1;
                }
                Ok(Effect::Proceed)
            },
            Instruction::StoreBcd { vx } => {
                let val = self.v[vx as usize];
                let hundreds = val / 100;
                let tens = (val / 10) % 10;
                let ones = val % 10;
                let base = self.i;
                let ghost mem_pre = memory@;
                if base as u32 >= MEMORY_SIZE as u32 {
                    proof {
                        assert(memory@ =~= bcd_mem(mem_pre, base as int, val));
                    }
                    return Err(Chip8Error::OutOfBoundsAccess);
                }
                let _ = memory.write(base, hundreds);
                if base as u32 + 1 >= MEMORY_SIZE as u32 {
                    proof {
                        assert(memory@ =~= bcd_mem(mem_pre, base as int, val));
                    }
                    return Err(Chip8Error::OutOfBoundsAccess);
                }
                let _ = memory.write(base + 1, tens);
                if base as u32 + 2 >= MEMORY_SIZE as u32 {
                    proof {
                        assert(memory@ =~= bcd_mem(mem_pre, base as int, val));
                    }
                    return Err(Chip8Error::OutOfBoundsAccess);
                }
                let _ = memory.write(base + 2, ones);
                proof {
                    assert(memory@ =~= bcd_mem(mem_pre, base as int, val));
                }
                Ok(Effect::Proceed)
            },
            Instruction::LdRegDt { vx } => {
                self.v[vx as usize] = self.dt;
                Ok(Effect::Proceed)
            },
            Instruction::LdFont { vx } => {
                self.i = FONT_START_ADDR + self.v[vx as usize] as u16 * 5;
                Ok(Effect::Proceed)
            },
            Instruction::LdDt { vx } => {
                self.dt = self.v[vx as usize];
                Ok(Effect::Proceed)
            },
            Instruction::LdSt { vx } => {
                self.st = self.v[vx as usize];
                Ok(Effect::Proceed)
            },
            Instruction::Rnd { vx, byte } => {
                let rb = random_byte();
                let masked = rb & byte;
                self.v[vx as usize] = masked;
                proof {
                    assert(self@ == old(self)@.with_v(old(self)@.v.update(vx as int, rb & byte)));
                }
                Ok(Effect::Proceed)
            },
            Instruction::Skp { vx } => {
                let vx_val = self.v[vx as usize];
                let nib = vx_val & 0x0F;
                proof {
                    assert(vx_val & 0x0F == vx_val % 16 && vx_val & 0x0F < 16) by (bit_vector);
                }
                let key = match Chip8Key::from_index(nib) {
                    Some(k) => k,
                    None => {
                        proof {
                            assert(false);
                        }
                        Chip8Key::K0
                    },
                };
                proof {
                    crate::key_matrix::lemma_key_of_index(nib);
                }
                if key_matrix.is_pressed(key) {
                    self.pc = self.pc + 2;
                }
                Ok(Effect::Proceed)
            },
            Instruction::Sknp { vx } => {
                let vx_val = self.v[vx as usize];
                let nib = vx_val & 0x0F;
                proof {
                    assert(vx_val & 0x0F == vx_val % 16 && vx_val & 0x0F < 16) by (bit_vector);
                }
                let key = match Chip8Key::from_index(nib) {
                    Some(k) => k,
                    None => {
                        proof {
                            assert(false);
                        }
                        Chip8Key::K0
                    },
                };
                proof {
                    crate::key_matrix::lemma_key_of_index(nib);
                }
                if !key_matrix.is_pressed(key) {
                    self.pc = self.pc + 2;
                }
                Ok(Effect::Proceed)
            },
            Instruction::AddI { vx } => {
                let sum = self.i as u32 + self.v[vx as usize] as u32;
                self.i = (sum % 0x10000) as u16;
                Ok(Effect::Proceed)
            },
            Instruction::Unknown { .. } => Ok(Effect::Proceed),
        }
    }

    /// Blits a sprite of `nibble` rows read from memory at `i`, clipping at
    /// the frame edges and flagging erased pixels in VF.
    #[verifier::loop_isolation(false)]
    fn draw(
        &mut self,
        vx: u8,
        vy: u8,
        nibble: u8,
        memory: &mut Memory,
        frame_buffer: &mut FrameBuffer,
    ) -> (r: Result<Effect, Chip8Error>)
        requires
            old(self).wf(),
            old(memory).wf(),
            old(frame_buffer).wf(),
            vx <= 0xF,
            vy <= 0xF,
            nibble <= 0xF,
        ensures
            final(self).wf(),
            final(memory).wf(),
            final(frame_buffer).wf(),
            final(self)@.pc == old(self)@.pc,
            execute_rel(
                old(self)@,
                old(memory)@,
                old(frame_buffer)@,
                crate::key_matrix::all_keys_up(),
                Instruction::Drw { vx, vy, nibble },
                final(self)@,
                final(memory)@,
                final(frame_buffer)@,
                r,
            ),
    {
        let mut sprite_buffer: Vec<u8> = Vec::new();

        let mut offset: u8 = 0;
        while offset < nibble
            invariant
                offset <= nibble,
                offset == 0 ==> sprite_buffer@ == Seq::<u8>::empty(),
                offset > 0 ==> self@.i + offset <= MEMORY_SIZE && sprite_buffer@ == memory@.subrange(
                    self@.i as int,
                    self@.i + offset,
                ),
            decreases nibble - offset,
        {
            let addr = self.i as u32 + offset as u32;
            if addr >= MEMORY_SIZE as u32 {
                return Err(Chip8Error::OutOfBoundsAccess);
            }
            let byte = match memory.read(addr as u16) {
                Ok(b) => b,
                Err(e) => {
                    proof {
                        assert(false);
                    }
                    return Err(e);
                },
            };
            sprite_buffer.push(byte);
            proof {
                assert(sprite_buffer@ =~= memory@.subrange(self@.i as int, self@.i + offset + 1));
            }
            offset = offset + 1;
            proof {
                assert(sprite_buffer@ == memory@.subrange(self@.i as int, self@.i + offset));
            }
        }

        let x = self.v[vx as usize] % 64;
        let y = self.v[vy as usize] % 32;

        self.v[15] = 0;

        let ghost fb_pre = frame_buffer@;
        let ghost sprite = sprite_buffer@;
        proof {
            assert(frame_buffer@ =~= partial_draw(fb_pre, sprite, x as int, y as int, 0, 0));
            assert(!any_pixel_erased(fb_pre, frame_buffer@));
        }

        let rows = if (y as u16 + nibble as u16) < 32 {
            y + nibble
        } else {
            32
        };
        let cols = if (x as u16 + 8) < 64 {
            x + 8
        } else {
            64
        };

        let mut cy = y;
        while cy < rows
            invariant
                self.wf(),
                memory.wf(),
                frame_buffer.wf(),
                memory@ == old(memory)@,
                x < 64,
                y < 32,
                y <= cy <= rows,
                rows == if y + sprite.len() < 32 {
                    y + sprite.len()
                } else {
                    32
                },
                cols == if x + 8 < 64 {
                    x + 8
                } else {
                    64
                },
                sprite.len() == nibble <= 0xF,
                self@ == old(self)@.with_v(old(self)@.v.update(15, self@.v[15])),
                self@.v[15] == 1 || self@.v[15] == 0,
                frame_buffer@ == partial_draw(fb_pre, sprite, x as int, y as int, cy - y, 0),
                (self@.v[15] == 1) == any_pixel_erased(fb_pre, frame_buffer@),
            decreases rows - cy,
        {
            let mut cx = x;
            while cx < cols
                invariant
                    self.wf(),
                    memory.wf(),
                    frame_buffer.wf(),
                    memory@ == old(memory)@,
                    x < 64,
                    y < 32,
                    y <= cy < rows,
                    x <= cx <= cols,
                    rows == if y + sprite.len() < 32 {
                        y + sprite.len()
                    } else {
                        32
                    },
                    cols == if x + 8 < 64 {
                        x + 8
                    } else {
                        64
                    },
                    sprite.len() == nibble <= 0xF,
                    self@ == old(self)@.with_v(old(self)@.v.update(15, self@.v[15])),
                    self@.v[15] == 1 || self@.v[15] == 0,
                    frame_buffer@ == partial_draw(
                        fb_pre,
                        sprite,
                        x as int,
                        y as int,
                        cy - y,
                        cx - x,
                    ),
                    (self@.v[15] == 1) == any_pixel_erased(fb_pre, frame_buffer@),
                decreases cols - cx,
            {
                let byte_index = cy - y;
                let bit_offset = cx - x;

                let row_byte = sprite_buffer[byte_index as usize];
                let bit = ((row_byte >> (7 - bit_offset)) & 1) == 1;
                proof {
                    let sh = (7 - bit_offset) as u8;
                    assert(((row_byte >> sh) & 1 == 1) == sprite_row_bit(sprite[cy - y], cx - x));
                }

                let ghost fb_before = frame_buffer@;
                let turned_off = frame_buffer.xor(cx as usize, cy as usize, bit);

                proof {
                    lemma_partial_draw_step(
                        fb_pre,
                        sprite,
                        x as int,
                        y as int,
                        cy - y,
                        cx - x,
                        fb_before,
                        frame_buffer@,
                    );
                }

                if turned_off {
                    self.v[15] = 1;
                    proof {
                        assert(self@.v =~= old(self)@.v.update(15, 1u8));
                    }
                }

                proof {
                    let p = (cy as int) * 64 + (cx as int);
                    assert(p / 64 == cy && p % 64 == cx && 0 <= p < 2048) by (nonlinear_arith)
                        requires
                            0 <= cy < 32,
                            0 <= cx < 64,
                            p == cy * 64 + cx,
                    ;
                    assert(fb_before[p] == fb_pre[p]);
                    if turned_off {
                        assert(fb_pre[p] && !frame_buffer@[p]);
                        assert(any_pixel_erased(fb_pre, frame_buffer@));
                    } else {
                        lemma_erased_unchanged(fb_pre, fb_before, frame_buffer@, p, bit);
                    }
                }

                cx = cx + 1;
            }
            proof {
                assert(frame_buffer@ =~= partial_draw(
                    fb_pre,
                    sprite,
                    x as int,
                    y as int,
                    cy - y + 1,
                    0,
                ));
            }
            cy = cy + 1;
        }

        proof {
            assert(frame_buffer@ =~= fb_after_draw(fb_pre, sprite, x as int, y as int));
            if nibble == 0 {
                assert(frame_buffer@ =~= fb_after_draw(
                    fb_pre,
                    Seq::<u8>::empty(),
                    x as int,
                    y as int,
                ));
            }
            assert(x == old(self)@.v[vx as int] as int % 64);
            assert(y == old(self)@.v[vy as int] as int % 32);
        }

        Ok(Effect::Drew)
    }
}

/// Law: executing a clear-screen succeeds on every machine state, turns
/// every one of the 2048 pixels off, asks for exactly one redraw, and
/// changes nothing else.
pub proof fn lemma_clear_screen(
    pre: CpuView,
    mem: Seq<u8>,
    fb: Seq<bool>,
    keys: Seq<bool>,
    post: CpuView,
    mem_post: Seq<u8>,
    fb_post: Seq<bool>,
    r: Result<Effect, Chip8Error>,
)
    requires
        execute_rel(pre, mem, fb, keys, Instruction::Cls, post, mem_post, fb_post, r),
    ensures
        r == Ok::<Effect, Chip8Error>(Effect::Drew),
        fb_post.len() == FRAME_BUFFER_SIZE,
        forall|p: int| 0 <= p < fb_post.len() ==> !fb_post[p],
        post == pre,
        mem_post == mem,
{
}

/// Law: a call finding the stack already full reports a stack overflow and
/// changes nothing.
pub proof fn lemma_call_overflow(
    pre: CpuView,
    mem: Seq<u8>,
    fb: Seq<bool>,
    keys: Seq<bool>,
    addr: u16,
    post: CpuView,
    mem_post: Seq<u8>,
    fb_post: Seq<bool>,
    r: Result<Effect, Chip8Error>,
)
    requires
        pre.sp >= 16,
        execute_rel(pre, mem, fb, keys, Instruction::Call { addr }, post, mem_post, fb_post, r),
    ensures
        r == Err::<Effect, Chip8Error>(Chip8Error::StackOverflow),
        post == pre,
        mem_post == mem,
        fb_post == fb,
{
}

/// Law: a return finding the stack empty reports a stack underflow and
/// changes nothing.
pub proof fn lemma_ret_underflow(
    pre: CpuView,
    mem: Seq<u8>,
    fb: Seq<bool>,
    keys: Seq<bool>,
    post: CpuView,
    mem_post: Seq<u8>,
    fb_post: Seq<bool>,
    r: Result<Effect, Chip8Error>,
)
    requires
        pre.sp == 0,
        execute_rel(pre, mem, fb, keys, Instruction::Ret, post, mem_post, fb_post, r),
    ensures
        r == Err::<Effect, Chip8Error>(Chip8Error::StackUnderflow),
        post == pre,
        mem_post == mem,
        fb_post == fb,
{
}

/// Law: with room on the stack, a call followed immediately by a return
/// succeeds and restores the program counter to the address immediately
/// after the call, with stack pointer, registers, index register and timers
/// all as they were.
pub proof fn lemma_call_then_ret(
    pre: CpuView,
    mid: CpuView,
    post: CpuView,
    mem: Seq<u8>,
    fb: Seq<bool>,
    keys: Seq<bool>,
    addr: u16,
    r1: Result<Effect, Chip8Error>,
    r2: Result<Effect, Chip8Error>,
)
    requires
        pre.wf(),
        pre.sp < 16,
        execute_rel(pre, mem, fb, keys, Instruction::Call { addr }, mid, mem, fb, r1),
        execute_rel(mid, mem, fb, keys, Instruction::Ret, post, mem, fb, r2),
    ensures
        r1 == Ok::<Effect, Chip8Error>(Effect::Proceed),
        r2 == Ok::<Effect, Chip8Error>(Effect::Proceed),
        mid.pc == addr,
        post.pc == pre.pc,
        post.sp == pre.sp,
        post.v == pre.v,
        post.i == pre.i,
        post.dt == pre.dt,
        post.st == pre.st,
{
    assert(mid.stack[pre.sp as int] == pre.pc);
}

/// A frame mid-draw: rows before `full_rows` are fully blitted, and in row
/// `full_rows` only the first `cols_done` sprite columns are.
pub open spec fn partial_draw(
    fb: Seq<bool>,
    sprite: Seq<u8>,
    x: int,
    y: int,
    full_rows: int,
    cols_done: int,
) -> Seq<bool> {
    Seq::new(
        FRAME_BUFFER_SIZE as nat,
        |p: int|
            {
                let py = p / FRAME_BUFFER_COLS as int;
                let px = p % FRAME_BUFFER_COLS as int;
                if y <= py < y + sprite.len() && x <= px < x + 8 && (py - y < full_rows || (py - y
                    == full_rows && px - x < cols_done)) {
                    fb[p] != sprite_row_bit(sprite[py - y], px - x)
                } else {
                    fb[p]
                }
            },
    )
}

/// Memory after storing the first `count` of the registers in `v` at
/// consecutive addresses from `base`, clipped to the addressable range.
pub open spec fn store_upto(mem: Seq<u8>, base: int, count: int, v: Seq<u8>) -> Seq<u8> {
    Seq::new(
        MEMORY_SIZE as nat,
        |a: int|
            if base <= a && a - base < count {
                v[a - base]
            } else {
                mem[a]
            },
    )
}

/// Registers after loading the first `count` of them from consecutive
/// addresses from `base`, skipping any address past the end of memory.
pub open spec fn read_upto(v: Seq<u8>, mem: Seq<u8>, base: int, count: int) -> Seq<u8> {
    Seq::new(
        16,
        |k: int|
            if k < count && base + k < MEMORY_SIZE {
                mem[base + k]
            } else {
                v[k]
            },
    )
}

/// Memory after a binary-coded-decimal store of `val` at `base`, clipped to
/// the addressable range.
pub open spec fn bcd_mem(mem: Seq<u8>, base: int, val: u8) -> Seq<u8> {
    Seq::new(
        MEMORY_SIZE as nat,
        |a: int|
            if a == base {
                (val / 100) as u8
            } else if a == base + 1 {
                ((val / 10) % 10) as u8
            } else if a == base + 2 {
                (val % 10) as u8
            } else {
                mem[a]
            },
    )
}

/// Blitting one more pixel extends the partially drawn region by one column
/// (or starts the next row's count at zero when the row is full).
proof fn lemma_partial_draw_step(
    fb_pre: Seq<bool>,
    sprite: Seq<u8>,
    x: int,
    y: int,
    row: int,
    col: int,
    before: Seq<bool>,
    after: Seq<bool>,
)
    requires
        0 <= x < 64,
        0 <= y < 32,
        0 <= row < sprite.len(),
        y + row < 32,
        0 <= col < 8,
        x + col < 64,
        fb_pre.len() == FRAME_BUFFER_SIZE,
        before == partial_draw(fb_pre, sprite, x, y, row, col),
        after == before.update(
            (y + row) * (FRAME_BUFFER_COLS as int) + (x + col),
            before[(y + row) * (FRAME_BUFFER_COLS as int) + (x + col)] != sprite_row_bit(
                sprite[row],
                col,
            ),
        ),
    ensures
        after == partial_draw(fb_pre, sprite, x, y, row, col + 1),
{
    let p0 = (y + row) * 64 + (x + col);
    assert(p0 / 64 == y + row && p0 % 64 == x + col) by (nonlinear_arith)
        requires
            0 <= y + row < 32,
            0 <= x + col < 64,
            p0 == (y + row) * 64 + (x + col),
    ;
    assert forall|p: int| 0 <= p < FRAME_BUFFER_SIZE implies after[p] == partial_draw(
        fb_pre,
        sprite,
        x,
        y,
        row,
        col + 1,
    )[p] by {
        let py = p / 64;
        let px = p % 64;
        assert(p == py * 64 + px && 0 <= px < 64) by (nonlinear_arith)
            requires
                0 <= p < 2048,
                py == p / 64,
                px == p % 64,
        ;
        if p != p0 {
            assert(!(py == y + row && px == x + col)) by (nonlinear_arith)
                requires
                    p == py * 64 + px,
                    p0 == (y + row) * 64 + (x + col),
                    p != p0,
            ;
        }
    }
    assert(after =~= partial_draw(fb_pre, sprite, x, y, row, col + 1));
}

/// Updating a pixel that was not erased keeps "some pixel was erased"
/// unchanged.
proof fn lemma_erased_unchanged(
    fb_pre: Seq<bool>,
    before: Seq<bool>,
    after: Seq<bool>,
    p0: int,
    bit: bool,
)
    requires
        0 <= p0 < FRAME_BUFFER_SIZE,
        fb_pre.len() == FRAME_BUFFER_SIZE,
        before.len() == FRAME_BUFFER_SIZE,
        before[p0] == fb_pre[p0],
        !(fb_pre[p0] && bit),
        after == before.update(p0, before[p0] != bit),
    ensures
        any_pixel_erased(fb_pre, after) == any_pixel_erased(fb_pre, before),
{
    if any_pixel_erased(fb_pre, before) {
        let q = choose|q: int| 0 <= q < FRAME_BUFFER_SIZE && fb_pre[q] && !before[q];
        assert(q != p0);
        assert(fb_pre[q] && !after[q]);
    }
    if any_pixel_erased(fb_pre, after) {
        let q = choose|q: int| 0 <= q < FRAME_BUFFER_SIZE && fb_pre[q] && !after[q];
        if q == p0 {
            assert(after[p0] == (fb_pre[p0] != bit));
            assert(fb_pre[p0] && !(fb_pre[p0] != bit));
            assert(bit);
            assert(false);
        } else {
            assert(fb_pre[q] && !before[q]);
        }
    }
}

} // verus!
