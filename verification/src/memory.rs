use vstd::prelude::*;

use crate::error::Chip8Error;

verus! {

/// First address of the built-in font glyphs.
pub const FONT_START_ADDR: u16 = 0x050;
/// Address at which ROM images are loaded and execution begins.
pub const ROM_START_ADDR: u16 = 0x200;
/// Total number of addressable bytes.
pub const MEMORY_SIZE: usize = 4096;

/// The 16 built-in hexadecimal glyphs, five bytes per glyph.
pub open spec fn font_seq() -> Seq<u8> {
    seq![
        0xF0u8, 0x90, 0x90, 0x90, 0xF0, 0x20, 0x60, 0x20, 0x20, 0x70, 0xF0, 0x10, 0xF0, 0x80,
        0xF0, 0xF0, 0x10, 0xF0, 0x10, 0xF0, 0x90, 0x90, 0xF0, 0x10, 0x10, 0xF0, 0x80, 0xF0,
        0x10, 0xF0, 0xF0, 0x80, 0xF0, 0x90, 0xF0, 0xF0, 0x10, 0x20, 0x40, 0x40, 0xF0, 0x90,
        0xF0, 0x90, 0xF0, 0xF0, 0x90, 0xF0, 0x10, 0xF0, 0xF0, 0x90, 0xF0, 0x90, 0x90, 0xE0,
        0x90, 0xE0, 0x90, 0xE0, 0xF0, 0x80, 0x80, 0x80, 0xF0, 0xE0, 0x90, 0x90, 0x90, 0xE0,
        0xF0, 0x80, 0xF0, 0x80, 0xF0, 0xF0, 0x80, 0xF0, 0x80, 0x80,
    ]
}

/// Memory contents right after construction: all zero but for the font region.
pub open spec fn fresh_memory_seq() -> Seq<u8> {
    Seq::new(
        MEMORY_SIZE as nat,
        |a: int|
            if FONT_START_ADDR <= a < FONT_START_ADDR + 80 {
                font_seq()[a - FONT_START_ADDR]
            } else {
                0u8
            },
    )
}

/// Memory after copying `rom` in starting at `ROM_START_ADDR`, with bytes
/// past the end of memory discarded.
pub open spec fn rom_loaded(mem: Seq<u8>, rom: Seq<u8>) -> Seq<u8> {
    Seq::new(
        MEMORY_SIZE as nat,
        |a: int|
            if ROM_START_ADDR <= a && a - ROM_START_ADDR < rom.len() {
                rom[a - ROM_START_ADDR]
            } else {
                mem[a]
            },
    )
}

/// The flat 4096-byte addressable store.
pub struct Memory {
    data: Vec<u8>,
}

impl View for Memory {
    type V = Seq<u8>;

    closed spec fn view(&self) -> Seq<u8> {
        self.data@
    }
}

impl Memory {
    pub open spec fn wf(&self) -> bool {
        self@.len() == MEMORY_SIZE
    }

    /// A fresh memory: zeroed, with the font glyphs installed once at
    /// `FONT_START_ADDR`. The font region is never touched again by ROM
    /// loading, which starts well above it.
    pub fn new() -> (r: Memory)
        ensures
            r.wf(),
            r@ == fresh_memory_seq(),
    {
        let mut memory = Memory { data: vec![0u8; MEMORY_SIZE] };
        memory.load_font();
        proof {
            assert(memory@ =~= fresh_memory_seq());
        }
        memory
    }

    /// A memory with exactly the given contents.
    pub fn from_bytes(data: Vec<u8>) -> (r: Memory)
        requires
            data@.len() == MEMORY_SIZE,
        ensures
            r.wf(),
            r@ == data@,
    {
        Memory { data }
    }

    /// Direct read of one byte known to be in bounds.
    pub fn get(&self, addr: usize) -> (r: u8)
        requires
            self.wf(),
            addr < MEMORY_SIZE,
        ensures
            r == self@[addr as int],
    {
        self.data[addr]
    }

    /// A copy of this memory with the same contents.
    pub fn duplicate(&self) -> (r: Memory)
        ensures
            r@ == self@,
    {
        let data = self.data.clone();
        proof {
            assert(data@ =~= self.data@);
        }
        Memory { data }
    }

    /// Reads one byte; any address at or past `MEMORY_SIZE` is an error.
    pub fn read(&self, addr: u16) -> (r: Result<u8, Chip8Error>)
        requires
            self.wf(),
        ensures
            addr < MEMORY_SIZE ==> r == Ok::<u8, Chip8Error>(self@[addr as int]),
            addr >= MEMORY_SIZE ==> r == Err::<u8, Chip8Error>(Chip8Error::OutOfBoundsAccess),
    {
        if (addr as usize) < MEMORY_SIZE {
            Ok(self.data[addr as usize])
        } else {
            Err(Chip8Error::OutOfBoundsAccess)
        }
    }

    /// Writes one byte; any address at or past `MEMORY_SIZE` is an error and
    /// leaves memory unchanged.
    pub fn write(&mut self, addr: u16, byte: u8) -> (r: Result<(), Chip8Error>)
        requires
            old(self).wf(),
        ensures
            final(self).wf(),
            addr < MEMORY_SIZE ==> final(self)@ == old(self)@.update(addr as int, byte) && r
                == Ok::<(), Chip8Error>(()),
            addr >= MEMORY_SIZE ==> final(self)@ == old(self)@ && r == Err::<(), Chip8Error>(
                Chip8Error::OutOfBoundsAccess,
            ),
    {
        if (addr as usize) < MEMORY_SIZE {
            self.data[addr as usize] = byte;
            Ok(())
        } else {
            Err(Chip8Error::OutOfBoundsAccess)
        }
    }

    /// Copies the ROM image in starting at `ROM_START_ADDR`; bytes past the
    /// end of memory are silently discarded.
    pub fn load_rom(&mut self, buffer: &Vec<u8>)
        requires
            old(self).wf(),
        ensures
            final(self).wf(),
            final(self)@ == rom_loaded(old(self)@, buffer@),
    {
        let ghost pre = self@;
        let mut i: usize = 0;
        while i < buffer.len() && ROM_START_ADDR as usize + i < MEMORY_SIZE
            invariant
                self.wf(),
                i <= buffer@.len(),
                ROM_START_ADDR as usize + i <= MEMORY_SIZE,
                self@ == Seq::new(
                    MEMORY_SIZE as nat,
                    |a: int|
                        if ROM_START_ADDR <= a && a - ROM_START_ADDR < i {
                            buffer@[a - ROM_START_ADDR]
                        } else {
                            pre[a]
                        },
                ),
            decreases buffer@.len() - i,
        {
            self.data[ROM_START_ADDR as usize + i] = buffer[i];
            i = i + 1;
            proof {
                assert(self@ =~= Seq::new(
                    MEMORY_SIZE as nat,
                    |a: int|
                        if ROM_START_ADDR <= a && a - ROM_START_ADDR < i {
                            buffer@[a - ROM_START_ADDR]
                        } else {
                            pre[a]
                        },
                ));
            }
        }
        proof {
            assert(self@ =~= rom_loaded(pre, buffer@));
        }
    }

    /// Installs the font glyphs at `FONT_START_ADDR`, leaving the rest of
    /// memory as it was.
    fn load_font(&mut self)
        requires
            old(self).wf(),
        ensures
            final(self).wf(),
            final(self)@ == Seq::new(
                MEMORY_SIZE as nat,
                |a: int|
                    if FONT_START_ADDR <= a < FONT_START_ADDR + 80 {
                        font_seq()[a - FONT_START_ADDR]
                    } else {
                        old(self)@[a]
                    },
            ),
    {
        let font = font_bytes();
        let ghost pre = self@;
        let mut i: usize = 0;
        while i < 80
            invariant
                self.wf(),
                font@ == font_seq(),
                i <= 80,
                self@ == Seq::new(
                    MEMORY_SIZE as nat,
                    |a: int|
                        if FONT_START_ADDR <= a < FONT_START_ADDR + i {
                            font_seq()[a - FONT_START_ADDR]
                        } else {
                            pre[a]
                        },
                ),
            decreases 80 - i,
        {
            self.data[FONT_START_ADDR as usize + i] = font[i];
            i = i + 1;
            proof {
                assert(self@ =~= Seq::new(
                    MEMORY_SIZE as nat,
                    |a: int|
                        if FONT_START_ADDR <= a < FONT_START_ADDR + i {
                            font_seq()[a - FONT_START_ADDR]
                        } else {
                            pre[a]
                        },
                ));
            }
        }
    }
}

/// The font glyphs as a vector, for installation into memory.
fn font_bytes() -> (r: Vec<u8>)
    ensures
        r@ == font_seq(),
{
    let r: Vec<u8> = vec![
        0xF0u8, 0x90, 0x90, 0x90, 0xF0, 0x20, 0x60, 0x20, 0x20, 0x70, 0xF0, 0x10, 0xF0, 0x80,
        0xF0, 0xF0, 0x10, 0xF0, 0x10, 0xF0, 0x90, 0x90, 0xF0, 0x10, 0x10, 0xF0, 0x80, 0xF0,
        0x10, 0xF0, 0xF0, 0x80, 0xF0, 0x90, 0xF0, 0xF0, 0x10, 0x20, 0x40, 0x40, 0xF0, 0x90,
        0xF0, 0x90, 0xF0, 0xF0, 0x90, 0xF0, 0x10, 0xF0, 0xF0, 0x90, 0xF0, 0x90, 0x90, 0xE0,
        0x90, 0xE0, 0x90, 0xE0, 0xF0, 0x80, 0x80, 0x80, 0xF0, 0xE0, 0x90, 0x90, 0x90, 0xE0,
        0xF0, 0x80, 0xF0, 0x80, 0xF0, 0xF0, 0x80, 0xF0, 0x80, 0x80,
    ];
    proof {
        assert(r@ =~= font_seq());
    }
    r
}

} // verus!
