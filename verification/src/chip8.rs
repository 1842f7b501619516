use vstd::prelude::*;

use crate::chip8_state::Chip8State;
use crate::cpu::{fresh_cpu, spec_tick60, tick_rel, Cpu, CpuView, Effect};
use crate::error::Chip8Error;
use crate::frame_buffer::{blank_frame, FrameBuffer};
use crate::key_matrix::{all_keys_up, key_index, Chip8Key, KeyMatrix};
use crate::memory::{fresh_memory_seq, rom_loaded, Memory, MEMORY_SIZE};

verus! {

/// One whole machine as a mathematical value.
#[verifier::ext_equal]
pub ghost struct Chip8View {
    pub cpu: CpuView,
    pub memory: Seq<u8>,
    pub frame: Seq<bool>,
    pub keys: Seq<bool>,
    pub paused: bool,
    pub awaiting_key: Option<u8>,
    pub last_released_key: Option<Chip8Key>,
}

impl Chip8View {
    pub open spec fn wf(self) -> bool {
        &&& self.cpu.wf()
        &&& self.memory.len() == MEMORY_SIZE
        &&& self.frame.len() == crate::frame_buffer::FRAME_BUFFER_SIZE
        &&& match self.awaiting_key {
            Some(vx) => vx < 16,
            None => true,
        }
    }
}

/// One call of `Chip8::tick`. While the engine awaits a key, nothing runs
/// until the pending key release arrives; it is consumed at most once and
/// lands in the awaited register. Otherwise one instruction is fetched and
/// executed, and the engine records whether it must now await a key. The
/// result is `Ok(drew)` where `drew` says whether the frame changed and a
/// redraw notification is owed.
pub open spec fn chip8_tick_rel(pre: Chip8View, post: Chip8View, r: Result<
    bool,
    Chip8Error,
>) -> bool {
    post.paused == pre.paused && post.keys == pre.keys && match pre.awaiting_key {
        Some(vx) => post.memory == pre.memory && post.frame == pre.frame && r == Ok::<
            bool,
            Chip8Error,
        >(false) && match pre.last_released_key {
            Some(key) => post.cpu == pre.cpu.with_v(
                pre.cpu.v.update(vx as int, key_index(key)),
            ) && post.awaiting_key == None::<u8> && post.last_released_key == None::<Chip8Key>,
            None => post == pre,
        },
        None => match r {
            Ok(drew) => exists|e: Effect|
                {
                    &&& #[trigger] tick_rel(
                        pre.cpu,
                        pre.memory,
                        pre.frame,
                        pre.keys,
                        post.cpu,
                        post.memory,
                        post.frame,
                        Ok::<Effect, Chip8Error>(e),
                    )
                    &&& drew == (e == Effect::Drew)
                    &&& post.awaiting_key == (match e {
                        Effect::AwaitKey { vx } => Some(vx),
                        _ => None::<u8>,
                    })
                    &&& post.last_released_key == (match e {
                        Effect::AwaitKey { .. } => None::<Chip8Key>,
                        _ => pre.last_released_key,
                    })
                },
            Err(err) => tick_rel(
                pre.cpu,
                pre.memory,
                pre.frame,
                pre.keys,
                post.cpu,
                post.memory,
                post.frame,
                Err::<Effect, Chip8Error>(err),
            ) && post.awaiting_key == None::<u8> && post.last_released_key
                == pre.last_released_key,
        },
    }
}

/// The interpreter: execution engine, memory, pixel grid and key state, with
/// the pause flag and the pending key-release bookkeeping.
pub struct Chip8 {
    cpu: Cpu,
    memory: Memory,
    frame_buffer: FrameBuffer,
    key_matrix: KeyMatrix,
    paused: bool,
    awaiting_key: Option<u8>,
    last_released_key: Option<Chip8Key>,
}

impl View for Chip8 {
    type V = Chip8View;

    closed spec fn view(&self) -> Chip8View {
        Chip8View {
            cpu: self.cpu@,
            memory: self.memory@,
            frame: self.frame_buffer@,
            keys: self.key_matrix@,
            paused: self.paused,
            awaiting_key: self.awaiting_key,
            last_released_key: self.last_released_key,
        }
    }
}

impl Chip8 {
    pub open spec fn wf(&self) -> bool {
        self@.wf()
    }

    /// A fresh machine: zeroed registers, fresh memory with the font
    /// installed, dark frame, all keys up, running, nothing pending.
    pub fn new() -> (r: Chip8)
        ensures
            r.wf(),
            r@ == (Chip8View {
                cpu: fresh_cpu(),
                memory: fresh_memory_seq(),
                frame: blank_frame(),
                keys: all_keys_up(),
                paused: false,
                awaiting_key: None::<u8>,
                last_released_key: None::<Chip8Key>,
            }),
    {
        Chip8 {
            cpu: Cpu::new(),
            memory: Memory::new(),
            frame_buffer: FrameBuffer::new(),
            key_matrix: KeyMatrix::new(),
            paused: false,
            awaiting_key: None,
            last_released_key: None,
        }
    }

    /// A machine rebuilt from a saved state. It always comes up running
    /// (not paused), whatever it was doing when the state was taken.
    pub fn new_from_save_state(state: Chip8State) -> (r: Chip8)
        requires
            state.wf(),
        ensures
            r.wf(),
            r@ == (Chip8View {
                cpu: state.cpu@,
                memory: state.memory@,
                frame: state.frame_buffer@,
                keys: state.key_matrix@,
                paused: false,
                awaiting_key: None::<u8>,
                last_released_key: state.last_released_key,
            }),
    {
        Chip8 {
            cpu: state.cpu,
            memory: state.memory,
            frame_buffer: state.frame_buffer,
            key_matrix: state.key_matrix,
            paused: false,
            awaiting_key: None,
            last_released_key: state.last_released_key,
        }
    }

    /// A point-in-time copy of the machine for saving.
    pub fn to_chip8_state(&self) -> (r: Chip8State)
        requires
            self.wf(),
        ensures
            r.wf(),
            r.cpu@ == self@.cpu,
            r.memory@ == self@.memory,
            r.frame_buffer@ == self@.frame,
            r.key_matrix@ == self@.keys,
            r.last_released_key == self@.last_released_key,
    {
        Chip8State {
            cpu: self.cpu.duplicate(),
            memory: self.memory.duplicate(),
            frame_buffer: self.frame_buffer.duplicate(),
            key_matrix: self.key_matrix,
            last_released_key: self.last_released_key,
        }
    }

    /// Copies a ROM image into memory starting at the ROM base address.
    pub fn load_rom(&mut self, bytes: &Vec<u8>)
        requires
            old(self).wf(),
        ensures
            final(self).wf(),
            final(self)@ == (Chip8View {
                memory: rom_loaded(old(self)@.memory, bytes@),
                ..old(self)@
            }),
    {
        self.memory.load_rom(bytes);
    }

    /// Records the most recent key release; it is honored at most once.
    pub fn set_last_released_key(&mut self, key: Chip8Key)
        ensures
            final(self)@ == (Chip8View { last_released_key: Some(key), ..old(self)@ }),
    {
        self.last_released_key = Some(key);
    }

    /// Marks the key pressed in the key matrix.
    pub fn press_key(&mut self, key: Chip8Key)
        ensures
            final(self)@ == (Chip8View {
                keys: old(self)@.keys.update(key_index(key) as int, true),
                ..old(self)@
            }),
    {
        self.key_matrix.press(key);
    }

    /// Marks the key released in the key matrix.
    pub fn release_key(&mut self, key: Chip8Key)
        ensures
            final(self)@ == (Chip8View {
                keys: old(self)@.keys.update(key_index(key) as int, false),
                ..old(self)@
            }),
    {
        self.key_matrix.release(key);
    }

    /// The 60Hz step: both timers decay by one, never below zero.
    pub fn tick_60hz(&mut self)
        ensures
            final(self)@ == (Chip8View {
                cpu: CpuView {
                    dt: spec_tick60(old(self)@.cpu.dt),
                    st: spec_tick60(old(self)@.cpu.st),
                    ..old(self)@.cpu
                },
                ..old(self)@
            }),
    {
        self.cpu.tick_60hz();
    }

    /// Runs one engine step, per `chip8_tick_rel`: either completes or keeps
    /// waiting for a key release, or fetches and executes one instruction.
    pub fn tick(&mut self) -> (r: Result<bool, Chip8Error>)
        requires
            old(self).wf(),
        ensures
            final(self).wf(),
            chip8_tick_rel(old(self)@, final(self)@, r),
    {
        match self.awaiting_key {
            Some(vx) => {
                match self.last_released_key {
                    Some(key) => {
                        self.cpu.set_reg(vx, key.to_index());
                        self.awaiting_key = None;
                        self.last_released_key = None;
                        Ok(false)
                    },
                    None => Ok(false),
                }
            },
            None => {
                let result = self.cpu.tick(
                    &mut self.memory,
                    &mut self.frame_buffer,
                    &self.key_matrix,
                );
                match result {
                    Ok(Effect::Proceed) => {
                        proof {
                            assert(tick_rel(
                                old(self)@.cpu,
                                old(self)@.memory,
                                old(self)@.frame,
                                old(self)@.keys,
                                self@.cpu,
                                self@.memory,
                                self@.frame,
                                Ok::<Effect, Chip8Error>(Effect::Proceed),
                            ));
                        }
                        Ok(false)
                    },
                    Ok(Effect::Drew) => {
                        proof {
                            assert(tick_rel(
                                old(self)@.cpu,
                                old(self)@.memory,
                                old(self)@.frame,
                                old(self)@.keys,
                                self@.cpu,
                                self@.memory,
                                self@.frame,
                                Ok::<Effect, Chip8Error>(Effect::Drew),
                            ));
                        }
                        Ok(true)
                    },
                    Ok(Effect::AwaitKey { vx }) => {
                        proof {
                            crate::instruction::lemma_spec_decode_wf(
                                crate::cpu::opcode_at(old(self)@.memory, old(self)@.cpu.pc as int),
                            );
                        }
                        self.awaiting_key = Some(vx);
                        self.last_released_key = None;
                        proof {
                            assert(tick_rel(
                                old(self)@.cpu,
                                old(self)@.memory,
                                old(self)@.frame,
                                old(self)@.keys,
                                self@.cpu,
                                self@.memory,
                                self@.frame,
                                Ok::<Effect, Chip8Error>(Effect::AwaitKey { vx }),
                            ));
                        }
                        Ok(false)
                    },
                    Err(e) => Err(e),
                }
            },
        }
    }

    /// Stops ticking until `unpause`.
    pub fn pause(&mut self)
        ensures
            final(self)@ == (Chip8View { paused: true, ..old(self)@ }),
    {
        self.paused = true;
    }

    /// Resumes ticking.
    pub fn unpause(&mut self)
        ensures
            final(self)@ == (Chip8View { paused: false, ..old(self)@ }),
    {
        self.paused = false;
    }

    /// Whether the machine is paused.
    pub fn is_paused(&self) -> (r: bool)
        ensures
            r == self@.paused,
    {
        self.paused
    }

    /// The register awaited by a pending await-key instruction, if any.
    pub fn awaiting_key(&self) -> (r: Option<u8>)
        ensures
            r == self@.awaiting_key,
    {
        self.awaiting_key
    }

    /// Read access to the pixel grid, for rendering.
    pub fn frame_buffer(&self) -> (r: &FrameBuffer)
        ensures
            r@ == self@.frame,
    {
        &self.frame_buffer
    }
}

} // verus!
