use vstd::prelude::*;

mod channel;
mod chip8;
mod chip8_state;
mod cpu;
mod error;
mod frame_buffer;
mod instruction;
mod key_mapping;
mod key_matrix;
mod memory;
mod scheduler;

pub use channel::Channel;
pub use channel::TryRecvKind;
pub use chip8::Chip8;
pub use chip8::Chip8View;
pub use chip8::chip8_tick_rel;
pub use chip8_state::Chip8State;
pub use chip8_state::state_eq;
pub use chip8_state::encoding_of;
pub use chip8_state::valid_encoding;
pub use chip8_state::decoded_state_matches;
pub use chip8_state::lemma_snapshot_round_trip;
pub use chip8_state::lemma_encoding_valid;
pub use chip8_state::SNAPSHOT_SIZE;
pub use cpu::Cpu;
pub use cpu::CpuView;
pub use cpu::Effect;
pub use cpu::execute_rel;
pub use cpu::tick_rel;
pub use cpu::fb_after_draw;
pub use cpu::any_pixel_erased;
pub use cpu::opcode_at;
pub use cpu::spec_tick60;
pub use cpu::tick60_n;
pub use cpu::lemma_timer_floor;
pub use cpu::lemma_call_then_ret;
pub use cpu::lemma_clear_screen;
pub use cpu::lemma_call_overflow;
pub use cpu::lemma_ret_underflow;
pub use cpu::wrap_add_u8;
pub use cpu::wrap_sub_u8;
pub use error::Chip8Error;
pub use frame_buffer::FrameBuffer;
pub use frame_buffer::FRAME_BUFFER_COLS;
pub use frame_buffer::FRAME_BUFFER_ROWS;
pub use frame_buffer::FRAME_BUFFER_SIZE;
pub use instruction::Instruction;
pub use instruction::instr_wf;
pub use instruction::spec_decode;
pub use key_mapping::KeyMapping;
pub use key_matrix::Chip8Key;
pub use key_matrix::KeyMatrix;
pub use memory::Memory;
pub use scheduler::Scheduler;
pub use scheduler::SchedulerAction;
pub use scheduler::TimerClock;
pub use scheduler::lemma_pause_no_jump;
pub use scheduler::TIMER_INTERVAL_MS;
pub use scheduler::TICK_INTERVAL_MS;
pub use memory::FONT_START_ADDR;
pub use memory::MEMORY_SIZE;
pub use memory::ROM_START_ADDR;

verus! {

/// One message of the duplex command/event bus. The host sends control
/// commands and key events to the scheduler; the scheduler sends `Draw`
/// events, each carrying the frame to render, back to the host.
pub enum Message {
    Draw(FrameBuffer),
    Shutdown,
    Pause,
    Unpause,
    Save(String),
    KeyPressed(Chip8Key),
    KeyReleased(Chip8Key),
}

} // verus!
