use chip8::Instruction;

#[test]
fn decodes_clear_screen() {
    assert!(matches!(Instruction::decode(0x00E0), Instruction::Cls));
}

#[test]
fn decodes_return() {
    assert!(matches!(Instruction::decode(0x00EE), Instruction::Ret));
}

#[test]
fn decodes_jump() {
    assert!(matches!(Instruction::decode(0x1228), Instruction::Jp { addr: 0x228 }));
}

#[test]
fn decodes_load_immediate() {
    assert!(matches!(
        Instruction::decode(0x6A02),
        Instruction::LdByte { vx: 0xA, byte: 0x02 }
    ));
}

#[test]
fn decodes_draw() {
    assert!(matches!(
        Instruction::decode(0xD015),
        Instruction::Drw { vx: 0, vy: 1, nibble: 5 }
    ));
}

#[test]
fn decodes_call_and_jump_v0() {
    assert!(matches!(Instruction::decode(0x2345), Instruction::Call { addr: 0x345 }));
    assert!(matches!(Instruction::decode(0xB123), Instruction::JpV0 { addr: 0x123 }));
}

#[test]
fn decodes_alu_family() {
    assert!(matches!(Instruction::decode(0x8120), Instruction::LdReg { vx: 1, vy: 2 }));
    assert!(matches!(Instruction::decode(0x8121), Instruction::OrReg { vx: 1, vy: 2 }));
    assert!(matches!(Instruction::decode(0x8122), Instruction::AndReg { vx: 1, vy: 2 }));
    assert!(matches!(Instruction::decode(0x8123), Instruction::XorReg { vx: 1, vy: 2 }));
    assert!(matches!(Instruction::decode(0x8124), Instruction::AddRegCarry { vx: 1, vy: 2 }));
    assert!(matches!(Instruction::decode(0x8125), Instruction::SubReg { vx: 1, vy: 2 }));
    assert!(matches!(Instruction::decode(0x8126), Instruction::Shr { vx: 1 }));
    assert!(matches!(Instruction::decode(0x8127), Instruction::SubNReg { vx: 1, vy: 2 }));
    assert!(matches!(Instruction::decode(0x812E), Instruction::Shl { vx: 1 }));
}

#[test]
fn decodes_skips_and_keys() {
    assert!(matches!(Instruction::decode(0x3A55), Instruction::SeByte { vx: 0xA, byte: 0x55 }));
    assert!(matches!(Instruction::decode(0x4A55), Instruction::SneByte { vx: 0xA, byte: 0x55 }));
    assert!(matches!(Instruction::decode(0x5AB0), Instruction::SeReg { vx: 0xA, vy: 0xB }));
    assert!(matches!(Instruction::decode(0x9AB0), Instruction::SneReg { vx: 0xA, vy: 0xB }));
    assert!(matches!(Instruction::decode(0xE29E), Instruction::Skp { vx: 2 }));
    assert!(matches!(Instruction::decode(0xE2A1), Instruction::Sknp { vx: 2 }));
    assert!(matches!(Instruction::decode(0xF30A), Instruction::KeyWait { vx: 3 }));
}

#[test]
fn decodes_memory_and_timer_family() {
    assert!(matches!(Instruction::decode(0xA123), Instruction::LdI { addr: 0x123 }));
    assert!(matches!(Instruction::decode(0xF41E), Instruction::AddI { vx: 4 }));
    assert!(matches!(Instruction::decode(0xF455), Instruction::Store { vx: 4 }));
    assert!(matches!(Instruction::decode(0xF465), Instruction::Read { vx: 4 }));
    assert!(matches!(Instruction::decode(0xF433), Instruction::StoreBcd { vx: 4 }));
    assert!(matches!(Instruction::decode(0xF407), Instruction::LdRegDt { vx: 4 }));
    assert!(matches!(Instruction::decode(0xF429), Instruction::LdFont { vx: 4 }));
    assert!(matches!(Instruction::decode(0xF415), Instruction::LdDt { vx: 4 }));
    assert!(matches!(Instruction::decode(0xF418), Instruction::LdSt { vx: 4 }));
    assert!(matches!(Instruction::decode(0xC4AB), Instruction::Rnd { vx: 4, byte: 0xAB }));
    assert!(matches!(Instruction::decode(0x7355), Instruction::AddByte { vx: 3, byte: 0x55 }));
}

#[test]
fn unknown_opcode_keeps_raw_bits() {
    assert!(matches!(
        Instruction::decode(0x5AB1),
        Instruction::Unknown { instruction: 0x5AB1 }
    ));
    assert!(matches!(
        Instruction::decode(0xFFFF),
        Instruction::Unknown { instruction: 0xFFFF }
    ));
    assert!(matches!(
        Instruction::decode(0x0000),
        Instruction::Unknown { instruction: 0x0000 }
    ));
}
