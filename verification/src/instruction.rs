use vstd::prelude::*;

verus! {

/// A decoded 16-bit opcode. Exactly one variant matches each known opcode
/// pattern; anything else decodes to `Unknown`, which is never an error.
#[derive(Clone, Copy, Debug, PartialEq, Eq, Structural)]
pub enum Instruction {
    Cls,
    Ret,
    Jp { addr: u16 },
    JpV0 { addr: u16 },
    LdI { addr: u16 },
    LdByte { vx: u8, byte: u8 },
    LdReg { vx: u8, vy: u8 },
    LdRegDt { vx: u8 },
    LdDt { vx: u8 },
    LdSt { vx: u8 },
    LdFont { vx: u8 },
    Rnd { vx: u8, byte: u8 },
    AddByte { vx: u8, byte: u8 },
    AddI { vx: u8 },
    AndReg { vx: u8, vy: u8 },
    XorReg { vx: u8, vy: u8 },
    AddRegCarry { vx: u8, vy: u8 },
    SubReg { vx: u8, vy: u8 },
    SubNReg { vx: u8, vy: u8 },
    Shr { vx: u8 },
    Shl { vx: u8 },
    OrReg { vx: u8, vy: u8 },
    SeByte { vx: u8, byte: u8 },
    SeReg { vx: u8, vy: u8 },
    SneByte { vx: u8, byte: u8 },
    SneReg { vx: u8, vy: u8 },
    Skp { vx: u8 },
    Sknp { vx: u8 },
    KeyWait { vx: u8 },
    Store { vx: u8 },
    StoreBcd { vx: u8 },
    Read { vx: u8 },
    Call { addr: u16 },
    Drw { vx: u8, vy: u8, nibble: u8 },
    Unknown { instruction: u16 },
}

/// Register and address fields of a decoded instruction fit their nibble or
/// twelve-bit slots. Every instruction that `decode` returns satisfies this.
pub open spec fn instr_wf(instr: Instruction) -> bool {
    match instr {
        Instruction::Jp { addr } => addr <= 0xFFF,
        Instruction::JpV0 { addr } => addr <= 0xFFF,
        Instruction::LdI { addr } => addr <= 0xFFF,
        Instruction::Call { addr } => addr <= 0xFFF,
        Instruction::LdByte { vx, byte } => vx <= 0xF,
        Instruction::LdReg { vx, vy } => vx <= 0xF && vy <= 0xF,
        Instruction::LdRegDt { vx } => vx <= 0xF,
        Instruction::LdDt { vx } => vx <= 0xF,
        Instruction::LdSt { vx } => vx <= 0xF,
        Instruction::LdFont { vx } => vx <= 0xF,
        Instruction::Rnd { vx, byte } => vx <= 0xF,
        Instruction::AddByte { vx, byte } => vx <= 0xF,
        Instruction::AddI { vx } => vx <= 0xF,
        Instruction::AndReg { vx, vy } => vx <= 0xF && vy <= 0xF,
        Instruction::XorReg { vx, vy } => vx <= 0xF && vy <= 0xF,
        Instruction::AddRegCarry { vx, vy } => vx <= 0xF && vy <= 0xF,
        Instruction::SubReg { vx, vy } => vx <= 0xF && vy <= 0xF,
        Instruction::SubNReg { vx, vy } => vx <= 0xF && vy <= 0xF,
        Instruction::Shr { vx } => vx <= 0xF,
        Instruction::Shl { vx } => vx <= 0xF,
        Instruction::OrReg { vx, vy } => vx <= 0xF && vy <= 0xF,
        Instruction::SeByte { vx, byte } => vx <= 0xF,
        Instruction::SeReg { vx, vy } => vx <= 0xF && vy <= 0xF,
        Instruction::SneByte { vx, byte } => vx <= 0xF,
        Instruction::SneReg { vx, vy } => vx <= 0xF && vy <= 0xF,
        Instruction::Skp { vx } => vx <= 0xF,
        Instruction::Sknp { vx } => vx <= 0xF,
        Instruction::KeyWait { vx } => vx <= 0xF,
        Instruction::Store { vx } => vx <= 0xF,
        Instruction::StoreBcd { vx } => vx <= 0xF,
        Instruction::Read { vx } => vx <= 0xF,
        Instruction::Drw { vx, vy, nibble } => vx <= 0xF && vy <= 0xF && nibble <= 0xF,
        _ => true,
    }
}

/// The operation a 16-bit opcode stands for, per the standard opcode table.
pub open spec fn spec_decode(opcode: u16) -> Instruction {
    if opcode == 0x00E0 {
        Instruction::Cls
    } else if opcode == 0x00EE {
        Instruction::Ret
    } else if opcode >> 12 == 0x1 {
        Instruction::Jp { addr: opcode & 0xFFF }
    } else if opcode >> 12 == 0xB {
        Instruction::JpV0 { addr: opcode & 0xFFF }
    } else if opcode >> 12 == 0x2 {
        Instruction::Call { addr: opcode & 0xFFF }
    } else if opcode >> 12 == 0x6 {
        Instruction::LdByte { vx: ((opcode >> 8) & 0x0F) as u8, byte: (opcode & 0xFF) as u8 }
    } else if opcode >> 12 == 0x7 {
        Instruction::AddByte { vx: ((opcode >> 8) & 0x0F) as u8, byte: (opcode & 0xFF) as u8 }
    } else if opcode >> 12 == 0xF && opcode & 0xFF == 0x1E {
        Instruction::AddI { vx: ((opcode >> 8) & 0x0F) as u8 }
    } else if opcode >> 12 == 0xA {
        Instruction::LdI { addr: opcode & 0xFFF }
    } else if opcode >> 12 == 0xD {
        Instruction::Drw {
            vx: ((opcode >> 8) & 0x0F) as u8,
            vy: ((opcode >> 4) & 0x0F) as u8,
            nibble: (opcode & 0x0F) as u8,
        }
    } else if opcode >> 12 == 0x3 {
        Instruction::SeByte { vx: ((opcode >> 8) & 0x0F) as u8, byte: (opcode & 0xFF) as u8 }
    } else if opcode >> 12 == 0x4 {
        Instruction::SneByte { vx: ((opcode >> 8) & 0x0F) as u8, byte: (opcode & 0xFF) as u8 }
    } else if opcode >> 12 == 0xC {
        Instruction::Rnd { vx: ((opcode >> 8) & 0x0F) as u8, byte: (opcode & 0xFF) as u8 }
    } else if opcode >> 12 == 0x5 && opcode & 0x0F == 0x0 {
        Instruction::SeReg { vx: ((opcode >> 8) & 0x0F) as u8, vy: ((opcode >> 4) & 0x0F) as u8 }
    } else if opcode >> 12 == 0x9 && opcode & 0x0F == 0x0 {
        Instruction::SneReg { vx: ((opcode >> 8) & 0x0F) as u8, vy: ((opcode >> 4) & 0x0F) as u8 }
    } else if opcode >> 12 == 0x8 && opcode & 0x0F == 0x0 {
        Instruction::LdReg { vx: ((opcode >> 8) & 0x0F) as u8, vy: ((opcode >> 4) & 0x0F) as u8 }
    } else if opcode >> 12 == 0x8 && opcode & 0x0F == 0x1 {
        Instruction::OrReg { vx: ((opcode >> 8) & 0x0F) as u8, vy: ((opcode >> 4) & 0x0F) as u8 }
    } else if opcode >> 12 == 0x8 && opcode & 0x0F == 0x2 {
        Instruction::AndReg { vx: ((opcode >> 8) & 0x0F) as u8, vy: ((opcode >> 4) & 0x0F) as u8 }
    } else if opcode >> 12 == 0x8 && opcode & 0x0F == 0x3 {
        Instruction::XorReg { vx: ((opcode >> 8) & 0x0F) as u8, vy: ((opcode >> 4) & 0x0F) as u8 }
    } else if opcode >> 12 == 0x8 && opcode & 0x0F == 0x4 {
        Instruction::AddRegCarry {
            vx: ((opcode >> 8) & 0x0F) as u8,
            vy: ((opcode >> 4) & 0x0F) as u8,
        }
    } else if opcode >> 12 == 0x8 && opcode & 0x0F == 0x5 {
        Instruction::SubReg { vx: ((opcode >> 8) & 0x0F) as u8, vy: ((opcode >> 4) & 0x0F) as u8 }
    } else if opcode >> 12 == 0x8 && opcode & 0x0F == 0x6 {
        Instruction::Shr { vx: ((opcode >> 8) & 0x0F) as u8 }
    } else if opcode >> 12 == 0x8 && opcode & 0x0F == 0x7 {
        Instruction::SubNReg { vx: ((opcode >> 8) & 0x0F) as u8, vy: ((opcode >> 4) & 0x0F) as u8 }
    } else if opcode >> 12 == 0x8 && opcode & 0x0F == 0xE {
        Instruction::Shl { vx: ((opcode >> 8) & 0x0F) as u8 }
    } else if opcode >> 12 == 0xE && opcode & 0xFF == 0x9E {
        Instruction::Skp { vx: ((opcode >> 8) & 0x0F) as u8 }
    } else if opcode >> 12 == 0xE && opcode & 0xFF == 0xA1 {
        Instruction::Sknp { vx: ((opcode >> 8) & 0x0F) as u8 }
    } else if opcode >> 12 == 0xF && opcode & 0xFF == 0x0A {
        Instruction::KeyWait { vx: ((opcode >> 8) & 0x0F) as u8 }
    } else if opcode >> 12 == 0xF && opcode & 0xFF == 0x55 {
        Instruction::Store { vx: ((opcode >> 8) & 0x0F) as u8 }
    } else if opcode >> 12 == 0xF && opcode & 0xFF == 0x65 {
        Instruction::Read { vx: ((opcode >> 8) & 0x0F) as u8 }
    } else if opcode >> 12 == 0xF && opcode & 0xFF == 0x33 {
        Instruction::StoreBcd { vx: ((opcode >> 8) & 0x0F) as u8 }
    } else if opcode >> 12 == 0xF && opcode & 0xFF == 0x07 {
        Instruction::LdRegDt { vx: ((opcode >> 8) & 0x0F) as u8 }
    } else if opcode >> 12 == 0xF && opcode & 0xFF == 0x29 {
        Instruction::LdFont { vx: ((opcode >> 8) & 0x0F) as u8 }
    } else if opcode >> 12 == 0xF && opcode & 0xFF == 0x15 {
        Instruction::LdDt { vx: ((opcode >> 8) & 0x0F) as u8 }
    } else if opcode >> 12 == 0xF && opcode & 0xFF == 0x18 {
        Instruction::LdSt { vx: ((opcode >> 8) & 0x0F) as u8 }
    } else {
        Instruction::Unknown { instruction: opcode }
    }
}

/// Every decoded instruction has its fields within their slots.
pub proof fn lemma_spec_decode_wf(opcode: u16)
    ensures
        instr_wf(spec_decode(opcode)),
{
    assert(opcode & 0xFFF <= 0xFFF) by (bit_vector);
    assert((opcode >> 8) & 0x0F <= 0xF) by (bit_vector);
    assert((opcode >> 4) & 0x0F <= 0xF) by (bit_vector);
    assert(opcode & 0x0F <= 0xF) by (bit_vector);
}

impl Instruction {
    /// Decodes one opcode. A pure mapping: the result is `spec_decode` of the
    /// opcode, and its fields always fit their slots.
    pub fn decode(opcode: u16) -> (r: Instruction)
        ensures
            r == spec_decode(opcode),
            instr_wf(r),
    {
        proof {
            assert(opcode & 0xFFF <= 0xFFF) by (bit_vector);
            assert((opcode >> 8) & 0x0F <= 0xF) by (bit_vector);
            assert((opcode >> 4) & 0x0F <= 0xF) by (bit_vector);
            assert(opcode & 0x0F <= 0xF) by (bit_vector);
            assert(opcode & 0xFF <= 0xFF) by (bit_vector);
        }
        if opcode == 0x00E0 {
            Instruction::Cls
        } else if opcode == 0x00EE {
            Instruction::Ret
        } else if opcode >> 12 == 0x1 {
            Instruction::Jp { addr: opcode & 0xFFF }
        } else if opcode >> 12 == 0xB {
            Instruction::JpV0 { addr: opcode & 0xFFF }
        } else if opcode >> 12 == 0x2 {
            Instruction::Call { addr: opcode & 0xFFF }
        } else if opcode >> 12 == 0x6 {
            Instruction::LdByte { vx: ((opcode >> 8) & 0x0F) as u8, byte: (opcode & 0xFF) as u8 }
        } else if opcode >> 12 == 0x7 {
            Instruction::AddByte { vx: ((opcode >> 8) & 0x0F) as u8, byte: (opcode & 0xFF) as u8 }
        } else if opcode >> 12 == 0xF && opcode & 0xFF == 0x1E {
            Instruction::AddI { vx: ((opcode >> 8) & 0x0F) as u8 }
        } else if opcode >> 12 == 0xA {
            Instruction::LdI { addr: opcode & 0xFFF }
        } else if opcode >> 12 == 0xD {
            Instruction::Drw {
                vx: ((opcode >> 8) & 0x0F) as u8,
                vy: ((opcode >> 4) & 0x0F) as u8,
                nibble: (opcode & 0x0F) as u8,
            }
        } else if opcode >> 12 == 0x3 {
            Instruction::SeByte { vx: ((opcode >> 8) & 0x0F) as u8, byte: (opcode & 0xFF) as u8 }
        } else if opcode >> 12 == 0x4 {
            Instruction::SneByte { vx: ((opcode >> 8) & 0x0F) as u8, byte: (opcode & 0xFF) as u8 }
        } else if opcode >> 12 == 0xC {
            Instruction::Rnd { vx: ((opcode >> 8) & 0x0F) as u8, byte: (opcode & 0xFF) as u8 }
        } else if opcode >> 12 == 0x5 && opcode & 0x0F == 0x0 {
            Instruction::SeReg {
                vx: ((opcode >> 8) & 0x0F) as u8,
                vy: ((opcode >> 4) & 0x0F) as u8,
            }
        } else if opcode >> 12 == 0x9 && opcode & 0x0F == 0x0 {
            Instruction::SneReg {
                vx: ((opcode >> 8) & 0x0F) as u8,
                vy: ((opcode >> 4) & 0x0F) as u8,
            }
        } else if opcode >> 12 == 0x8 && opcode & 0x0F == 0x0 {
            Instruction::LdReg {
                vx: ((opcode >> 8) & 0x0F) as u8,
                vy: ((opcode >> 4) & 0x0F) as u8,
            }
        } else if opcode >> 12 == 0x8 && opcode & 0x0F == 0x1 {
            Instruction::OrReg {
                vx: ((opcode >> 8) & 0x0F) as u8,
                vy: ((opcode >> 4) & 0x0F) as u8,
            }
        } else if opcode >> 12 == 0x8 && opcode & 0x0F == 0x2 {
            Instruction::AndReg {
                vx: ((opcode >> 8) & 0x0F) as u8,
                vy: ((opcode >> 4) & 0x0F) as u8,
            }
        } else if opcode >> 12 == 0x8 && opcode & 0x0F == 0x3 {
            Instruction::XorReg {
                vx: ((opcode >> 8) & 0x0F) as u8,
                vy: ((opcode >> 4) & 0x0F) as u8,
            }
        } else if opcode >> 12 == 0x8 && opcode & 0x0F == 0x4 {
            Instruction::AddRegCarry {
                vx: ((opcode >> 8) & 0x0F) as u8,
                vy: ((opcode >> 4) & 0x0F) as u8,
            }
        } else if opcode >> 12 == 0x8 && opcode & 0x0F == 0x5 {
            Instruction::SubReg {
                vx: ((opcode >> 8) & 0x0F) as u8,
                vy: ((opcode >> 4) & 0x0F) as u8,
            }
        } else if opcode >> 12 == 0x8 && opcode & 0x0F == 0x6 {
            Instruction::Shr { vx: ((opcode >> 8) & 0x0F) as u8 }
        } else if opcode >> 12 == 0x8 && opcode & 0x0F == 0x7 {
            Instruction::SubNReg {
                vx: ((opcode >> 8) & 0x0F) as u8,
                vy: ((opcode >> 4) & 0x0F) as u8,
            }
        } else if opcode >> 12 == 0x8 && opcode & 0x0F == 0xE {
            Instruction::Shl { vx: ((opcode >> 8) & 0x0F) as u8 }
        } else if opcode >> 12 == 0xE && opcode & 0xFF == 0x9E {
            Instruction::Skp { vx: ((opcode >> 8) & 0x0F) as u8 }
        } else if opcode >> 12 == 0xE && opcode & 0xFF == 0xA1 {
            Instruction::Sknp { vx: ((opcode >> 8) & 0x0F) as u8 }
        } else if opcode >> 12 == 0xF && opcode & 0xFF == 0x0A {
            Instruction::KeyWait { vx: ((opcode >> 8) & 0x0F) as u8 }
        } else if opcode >> 12 == 0xF && opcode & 0xFF == 0x55 {
            Instruction::Store { vx: ((opcode >> 8) & 0x0F) as u8 }
        } else if opcode >> 12 == 0xF && opcode & 0xFF == 0x65 {
            Instruction::Read { vx: ((opcode >> 8) & 0x0F) as u8 }
        } else if opcode >> 12 == 0xF && opcode & 0xFF == 0x33 {
            Instruction::StoreBcd { vx: ((opcode >> 8) & 0x0F) as u8 }
        } else if opcode >> 12 == 0xF && opcode & 0xFF == 0x07 {
            Instruction::LdRegDt { vx: ((opcode >> 8) & 0x0F) as u8 }
        } else if opcode >> 12 == 0xF && opcode & 0xFF == 0x29 {
            Instruction::LdFont { vx: ((opcode >> 8) & 0x0F) as u8 }
        } else if opcode >> 12 == 0xF && opcode & 0xFF == 0x15 {
            Instruction::LdDt { vx: ((opcode >> 8) & 0x0F) as u8 }
        } else if opcode >> 12 == 0xF && opcode & 0xFF == 0x18 {
            Instruction::LdSt { vx: ((opcode >> 8) & 0x0F) as u8 }
        } else {
            Instruction::Unknown { instruction: opcode }
        }
    }
}

} // verus!
