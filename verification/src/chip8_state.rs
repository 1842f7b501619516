use vstd::prelude::*;

use crate::cpu::Cpu;
use crate::frame_buffer::{FrameBuffer, FRAME_BUFFER_SIZE};
use crate::key_matrix::{key_index, lemma_key_index_of, spec_key_of, Chip8Key, KeyMatrix};
use crate::memory::{Memory, MEMORY_SIZE};

verus! {

broadcast use crate::key_matrix::lemma_key_matrix_len;

/// Offsets of the snapshot encoding: general registers, index register,
/// stack, program counter, stack pointer, timers, memory bytes, frame pixels,
/// key states, and the optional pending released key. Two-byte values are
/// little-endian; each pixel and key state is one byte, zero or one.
pub const I_OFF: usize = 16;

pub const STACK_OFF: usize = 18;

pub const PC_OFF: usize = 50;

pub const SP_OFF: usize = 52;

pub const DT_OFF: usize = 53;

pub const ST_OFF: usize = 54;

pub const MEM_OFF: usize = 55;

pub const FRAME_OFF: usize = 4151;

pub const KEYS_OFF: usize = 6199;

pub const TAG_OFF: usize = 6215;

pub const KEY_OFF: usize = 6216;

/// Total length of an encoded snapshot.
pub const SNAPSHOT_SIZE: usize = 6217;

/// The low byte of a sixteen-bit value.
pub open spec fn u16_lo(x: u16) -> u8 {
    (x % 256) as u8
}

/// The high byte of a sixteen-bit value.
pub open spec fn u16_hi(x: u16) -> u8 {
    (x / 256) as u8
}

/// The sixteen-bit value with the given low and high bytes.
pub open spec fn u16_from_bytes(lo: u8, hi: u8) -> u16 {
    (lo + 256 * hi) as u16
}

/// An immutable point-in-time copy of the whole machine, used only for
/// save/restore.
pub struct Chip8State {
    pub cpu: Cpu,
    pub memory: Memory,
    pub frame_buffer: FrameBuffer,
    pub key_matrix: KeyMatrix,
    pub last_released_key: Option<Chip8Key>,
}

/// The two states hold the same machine, component by component.
pub open spec fn state_eq(a: Chip8State, b: Chip8State) -> bool {
    a.cpu@ == b.cpu@ && a.memory@ == b.memory@ && a.frame_buffer@ == b.frame_buffer@
        && a.key_matrix@ == b.key_matrix@ && a.last_released_key == b.last_released_key
}

/// The byte at position `j` of the encoding of `s`.
pub open spec fn encoded_byte(s: Chip8State, j: int) -> u8 {
    if j < I_OFF {
        s.cpu@.v[j]
    } else if j == I_OFF {
        u16_lo(s.cpu@.i)
    } else if j == I_OFF + 1 {
        u16_hi(s.cpu@.i)
    } else if j < PC_OFF {
        if (j - STACK_OFF) % 2 == 0 {
            u16_lo(s.cpu@.stack[(j - STACK_OFF) / 2])
        } else {
            u16_hi(s.cpu@.stack[(j - STACK_OFF) / 2])
        }
    } else if j == PC_OFF {
        u16_lo(s.cpu@.pc)
    } else if j == PC_OFF + 1 {
        u16_hi(s.cpu@.pc)
    } else if j == SP_OFF {
        s.cpu@.sp
    } else if j == DT_OFF {
        s.cpu@.dt
    } else if j == ST_OFF {
        s.cpu@.st
    } else if j < FRAME_OFF {
        s.memory@[j - MEM_OFF]
    } else if j < KEYS_OFF {
        if s.frame_buffer@[j - FRAME_OFF] {
            1u8
        } else {
            0u8
        }
    } else if j < TAG_OFF {
        if s.key_matrix@[j - KEYS_OFF] {
            1u8
        } else {
            0u8
        }
    } else if j == TAG_OFF {
        if s.last_released_key is Some {
            1u8
        } else {
            0u8
        }
    } else {
        match s.last_released_key {
            Some(k) => key_index(k),
            None => 0u8,
        }
    }
}

/// The snapshot encoding of a machine state: a fixed, versionless byte
/// layout, stable across save and load.
pub open spec fn encoding_of(s: Chip8State) -> Seq<u8> {
    Seq::new(SNAPSHOT_SIZE as nat, |j: int| encoded_byte(s, j))
}

/// The byte strings the decoder accepts: exact length, a stack pointer within
/// range, and a well-formed pending-key tail.
pub open spec fn valid_encoding(bytes: Seq<u8>) -> bool {
    &&& bytes.len() == SNAPSHOT_SIZE
    &&& bytes[SP_OFF as int] <= 16
    &&& (bytes[TAG_OFF as int] == 0 || bytes[TAG_OFF as int] == 1)
    &&& (bytes[TAG_OFF as int] == 1 ==> bytes[KEY_OFF as int] < 16)
}

/// How each component of a decoded state is read off the byte string.
pub open spec fn decoded_state_matches(bytes: Seq<u8>, s: Chip8State) -> bool {
    &&& s.cpu@.v == bytes.subrange(0, I_OFF as int)
    &&& s.cpu@.i == u16_from_bytes(bytes[I_OFF as int], bytes[I_OFF + 1])
    &&& s.cpu@.stack == Seq::new(
        16,
        |e: int| u16_from_bytes(bytes[STACK_OFF + 2 * e], bytes[STACK_OFF + 2 * e + 1]),
    )
    &&& s.cpu@.pc == u16_from_bytes(bytes[PC_OFF as int], bytes[PC_OFF + 1])
    &&& s.cpu@.sp == bytes[SP_OFF as int]
    &&& s.cpu@.dt == bytes[DT_OFF as int]
    &&& s.cpu@.st == bytes[ST_OFF as int]
    &&& s.memory@ == bytes.subrange(MEM_OFF as int, MEM_OFF + MEMORY_SIZE)
    &&& s.frame_buffer@ == Seq::new(
        FRAME_BUFFER_SIZE as nat,
        |p: int| bytes[FRAME_OFF + p] != 0,
    )
    &&& s.key_matrix@ == Seq::new(16, |k: int| bytes[KEYS_OFF + k] != 0)
    &&& s.last_released_key == (if bytes[TAG_OFF as int] == 1 {
        Some(spec_key_of(bytes[KEY_OFF as int]))
    } else {
        None::<Chip8Key>
    })
}

impl Chip8State {
    pub open spec fn wf(&self) -> bool {
        self.cpu.wf() && self.memory.wf() && self.frame_buffer.wf()
    }

    /// Serializes the machine state into the fixed snapshot layout.
    pub fn encode(&self) -> (out: Vec<u8>)
        requires
            self.wf(),
        ensures
            out@ == encoding_of(*self),
            valid_encoding(out@),
    {
        let mut out: Vec<u8> = Vec::new();

        let mut k: usize = 0;
        while k < 16
            invariant
                self.wf(),
                k <= 16,
                out@.len() == k,
                forall|j: int| 0 <= j < out@.len() ==> out@[j] == encoded_byte(*self, j),
            decreases 16 - k,
        {
            out.push(self.cpu.get_reg(k as u8));
            k = k + 1;
        }

        out.push((self.cpu.get_i() % 256) as u8);
        out.push((self.cpu.get_i() / 256) as u8);

        let mut e: usize = 0;
        while e < 16
            invariant
                self.wf(),
                e <= 16,
                out@.len() == STACK_OFF + 2 * e,
                forall|j: int| 0 <= j < out@.len() ==> out@[j] == encoded_byte(*self, j),
            decreases 16 - e,
        {
            let entry = self.cpu.stack_at(e as u8);
            out.push((entry % 256) as u8);
            out.push((entry / 256) as u8);
            e = e + 1;
        }

        out.push((self.cpu.get_pc() % 256) as u8);
        out.push((self.cpu.get_pc() / 256) as u8);
        out.push(self.cpu.get_sp());
        out.push(self.cpu.get_dt());
        out.push(self.cpu.get_st());

        let mut m: usize = 0;
        while m < MEMORY_SIZE
            invariant
                self.wf(),
                m <= MEMORY_SIZE,
                out@.len() == MEM_OFF + m,
                forall|j: int| 0 <= j < out@.len() ==> out@[j] == encoded_byte(*self, j),
            decreases MEMORY_SIZE - m,
        {
            out.push(self.memory.get(m));
            m = m + 1;
        }

        let pixels = self.frame_buffer.get_ref();
        let mut p: usize = 0;
        while p < FRAME_BUFFER_SIZE
            invariant
                self.wf(),
                pixels@ == self.frame_buffer@,
                p <= FRAME_BUFFER_SIZE,
                out@.len() == FRAME_OFF + p,
                forall|j: int| 0 <= j < out@.len() ==> out@[j] == encoded_byte(*self, j),
            decreases FRAME_BUFFER_SIZE - p,
        {
            out.push(
                if pixels[p] {
                    1u8
                } else {
                    0u8
                },
            );
            p = p + 1;
        }

        let mut k: usize = 0;
        while k < 16
            invariant
                self.wf(),
                k <= 16,
                out@.len() == KEYS_OFF + k,
                forall|j: int| 0 <= j < out@.len() ==> out@[j] == encoded_byte(*self, j),
            decreases 16 - k,
        {
            proof {
                crate::key_matrix::lemma_key_of_index(k as u8);
            }
            let key = match Chip8Key::from_index(k as u8) {
                Some(key) => key,
                None => {
                    proof {
                        assert(false);
                    }
                    Chip8Key::K0
                },
            };
            out.push(
                if self.key_matrix.is_pressed(key) {
                    1u8
                } else {
                    0u8
                },
            );
            k = k + 1;
        }

        match self.last_released_key {
            Some(key) => {
                out.push(1u8);
                proof {
                    lemma_key_index_of(key);
                }
                out.push(key.to_index());
            },
            None => {
                out.push(0u8);
                out.push(0u8);
            },
        }

        proof {
            assert(out@ =~= encoding_of(*self));
        }
        out
    }

    /// Deserializes a snapshot. Returns `Some` exactly on well-formed byte
    /// strings, and the state read off the bytes per `decoded_state_matches`.
    pub fn decode(bytes: &Vec<u8>) -> (r: Option<Chip8State>)
        ensures
            r is Some <==> valid_encoding(bytes@),
            r matches Some(s) ==> s.wf() && decoded_state_matches(bytes@, s),
    {
        if bytes.len() != SNAPSHOT_SIZE {
            return None;
        }
        let sp = bytes[SP_OFF];
        if sp > 16 {
            return None;
        }
        let tag = bytes[TAG_OFF];
        if tag > 1 {
            return None;
        }
        if tag == 1 && bytes[KEY_OFF] > 15 {
            return None;
        }

        let mut v: Vec<u8> = Vec::new();
        let mut k: usize = 0;
        while k < 16
            invariant
                bytes@.len() == SNAPSHOT_SIZE,
                k <= 16,
                v@.len() == k,
                forall|j: int| 0 <= j < v@.len() ==> v@[j] == bytes@[j],
            decreases 16 - k,
        {
            v.push(bytes[k]);
            k = k + 1;
        }

        let i_reg = bytes[I_OFF] as u16 + 256 * (bytes[I_OFF + 1] as u16);

        let mut stack: Vec<u16> = Vec::new();
        let mut e: usize = 0;
        while e < 16
            invariant
                bytes@.len() == SNAPSHOT_SIZE,
                e <= 16,
                stack@.len() == e,
                forall|j: int|
                    0 <= j < stack@.len() ==> stack@[j] == u16_from_bytes(
                        bytes@[STACK_OFF + 2 * j],
                        bytes@[STACK_OFF + 2 * j + 1],
                    ),
            decreases 16 - e,
        {
            let lo = bytes[STACK_OFF + 2 * e];
            let hi = bytes[STACK_OFF + 2 * e + 1];
            stack.push(lo as u16 + 256 * (hi as u16));
            e = e + 1;
        }

        let pc = bytes[PC_OFF] as u16 + 256 * (bytes[PC_OFF + 1] as u16);
        let dt = bytes[DT_OFF];
        let st = bytes[ST_OFF];

        let cpu = Cpu::from_parts(v, i_reg, pc, sp, dt, st, stack);

        let mut mem_bytes: Vec<u8> = Vec::new();
        let mut m: usize = 0;
        while m < MEMORY_SIZE
            invariant
                bytes@.len() == SNAPSHOT_SIZE,
                m <= MEMORY_SIZE,
                mem_bytes@.len() == m,
                forall|j: int| 0 <= j < mem_bytes@.len() ==> mem_bytes@[j] == bytes@[MEM_OFF + j],
            decreases MEMORY_SIZE - m,
        {
            mem_bytes.push(bytes[MEM_OFF + m]);
            m = m + 1;
        }
        let memory = Memory::from_bytes(mem_bytes);

        let mut pixels: Vec<bool> = Vec::new();
        let mut p: usize = 0;
        while p < FRAME_BUFFER_SIZE
            invariant
                bytes@.len() == SNAPSHOT_SIZE,
                p <= FRAME_BUFFER_SIZE,
                pixels@.len() == p,
                forall|j: int|
                    0 <= j < pixels@.len() ==> pixels@[j] == (bytes@[FRAME_OFF + j] != 0),
            decreases FRAME_BUFFER_SIZE - p,
        {
            pixels.push(bytes[FRAME_OFF + p] != 0);
            p = p + 1;
        }
        let frame_buffer = FrameBuffer::from_pixels(pixels);

        let mut key_states: Vec<bool> = Vec::new();
        let mut k: usize = 0;
        while k < 16
            invariant
                bytes@.len() == SNAPSHOT_SIZE,
                k <= 16,
                key_states@.len() == k,
                forall|j: int|
                    0 <= j < key_states@.len() ==> key_states@[j] == (bytes@[KEYS_OFF + j] != 0),
            decreases 16 - k,
        {
            key_states.push(bytes[KEYS_OFF + k] != 0);
            k = k + 1;
        }
        let key_matrix = KeyMatrix::from_states(&key_states);

        let last_released_key = if tag == 1 {
            match Chip8Key::from_index(bytes[KEY_OFF]) {
                Some(key) => Some(key),
                None => {
                    proof {
                        assert(false);
                    }
                    None
                },
            }
        } else {
            None
        };

        let state = Chip8State { cpu, memory, frame_buffer, key_matrix, last_released_key };
        proof {
            assert(state.cpu@.v =~= bytes@.subrange(0, I_OFF as int));
            assert(state.cpu@.stack =~= Seq::new(
                16,
                |e: int| u16_from_bytes(bytes@[STACK_OFF + 2 * e], bytes@[STACK_OFF + 2 * e + 1]),
            ));
            assert(state.memory@ =~= bytes@.subrange(MEM_OFF as int, MEM_OFF + MEMORY_SIZE));
            assert(state.frame_buffer@ =~= Seq::new(
                FRAME_BUFFER_SIZE as nat,
                |p: int| bytes@[FRAME_OFF + p] != 0,
            ));
            assert(state.key_matrix@ =~= Seq::new(16, |k: int| bytes@[KEYS_OFF + k] != 0));
        }
        Some(state)
    }
}

/// Splitting a sixteen-bit value into its bytes and recombining them gives
/// the value back.
proof fn lemma_u16_bytes_round_trip(x: u16)
    ensures
        u16_from_bytes(u16_lo(x), u16_hi(x)) == x,
{
}

/// Law: the snapshot encoding round-trips. Any state the decoder reads off
/// the encoding of a well-formed machine state is that state, component by
/// component.
pub proof fn lemma_snapshot_round_trip(s: Chip8State, s2: Chip8State)
    requires
        s.wf(),
        decoded_state_matches(encoding_of(s), s2),
    ensures
        state_eq(s2, s),
{
    let bytes = encoding_of(s);
    assert(s2.cpu@.v =~= s.cpu@.v);
    lemma_u16_bytes_round_trip(s.cpu@.i);
    lemma_u16_bytes_round_trip(s.cpu@.pc);
    assert forall|e: int| 0 <= e < 16 implies s2.cpu@.stack[e] == s.cpu@.stack[e] by {
        assert(bytes[STACK_OFF + 2 * e] == u16_lo(s.cpu@.stack[e]));
        assert(bytes[STACK_OFF + 2 * e + 1] == u16_hi(s.cpu@.stack[e]));
        lemma_u16_bytes_round_trip(s.cpu@.stack[e]);
    }
    assert(s2.cpu@.stack =~= s.cpu@.stack);
    assert(s2.cpu@ =~= s.cpu@);
    assert(s2.memory@ =~= s.memory@);
    assert(s2.frame_buffer@ =~= s.frame_buffer@);
    assert forall|k: int| 0 <= k < 16 implies s2.key_matrix@[k] == s.key_matrix@[k] by {
        assert(bytes[KEYS_OFF + k] == encoded_byte(s, KEYS_OFF + k));
    }
    assert(s2.key_matrix@ =~= s.key_matrix@);
    match s.last_released_key {
        Some(k) => {
            lemma_key_index_of(k);
            assert(s2.last_released_key == s.last_released_key);
        },
        None => {
            assert(s2.last_released_key == s.last_released_key);
        },
    }
}

/// Law: the encoding of a well-formed machine state is accepted back by the
/// decoder.
pub proof fn lemma_encoding_valid(s: Chip8State)
    requires
        s.wf(),
    ensures
        valid_encoding(encoding_of(s)),
{
    match s.last_released_key {
        Some(k) => {
            lemma_key_index_of(k);
        },
        None => {},
    }
}

} // verus!
