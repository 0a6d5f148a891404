use chip8::instruction::{decode, Instruction};
use chip8::opcode::Opcode;

#[test]
fn opcode_field_extraction() {
    let op = Opcode::new(0xABCD);
    assert_eq!(op.get_address(), 0xBCD);
    assert_eq!(op.get_low_byte(), 0xCD);
    assert_eq!(op.get_index_from_nibble(1), 0xD);
    assert_eq!(op.get_index_from_nibble(2), 0xC);
    assert_eq!(op.get_index_from_nibble(3), 0xB);
    assert_eq!(op.get_index_from_nibble(4), 0xA);
}

#[test]
fn decode_exact_zero_range_forms() {
    assert_eq!(decode(Opcode::new(0x00E0)), Some(Instruction::Cls));
    assert_eq!(decode(Opcode::new(0x00EE)), Some(Instruction::Ret));
    assert_eq!(decode(Opcode::new(0x0123)), None);
}

#[test]
fn decode_jumps_and_calls() {
    assert_eq!(decode(Opcode::new(0x1234)), Some(Instruction::Jp { nnn: 0x234 }));
    assert_eq!(decode(Opcode::new(0x2ABC)), Some(Instruction::Call { nnn: 0xABC }));
    assert_eq!(decode(Opcode::new(0xB456)), Some(Instruction::Jp2 { nnn: 0x456 }));
}

#[test]
fn decode_immediate_forms() {
    assert_eq!(decode(Opcode::new(0x3A42)), Some(Instruction::SeXkk { x: 0xA, kk: 0x42 }));
    assert_eq!(decode(Opcode::new(0x4A42)), Some(Instruction::SneXkk { x: 0xA, kk: 0x42 }));
    assert_eq!(decode(Opcode::new(0x6A42)), Some(Instruction::LdXkk { x: 0xA, kk: 0x42 }));
    assert_eq!(decode(Opcode::new(0x7A42)), Some(Instruction::AddXkk { x: 0xA, kk: 0x42 }));
    assert_eq!(decode(Opcode::new(0xC107)), Some(Instruction::RndXkk { x: 0x1, kk: 0x07 }));
    assert_eq!(decode(Opcode::new(0xA789)), Some(Instruction::LdINnn { nnn: 0x789 }));
}

#[test]
fn decode_register_pair_range_needs_zero_nibble() {
    assert_eq!(decode(Opcode::new(0x5AB0)), Some(Instruction::SeXy { x: 0xA, y: 0xB }));
    assert_eq!(decode(Opcode::new(0x5AB1)), None);
    assert_eq!(decode(Opcode::new(0x9AB0)), Some(Instruction::SneXy { x: 0xA, y: 0xB }));
    assert_eq!(decode(Opcode::new(0x9AB3)), None);
}

#[test]
fn decode_arithmetic_range_by_low_nibble() {
    assert_eq!(decode(Opcode::new(0x8AB0)), Some(Instruction::LdXy { x: 0xA, y: 0xB }));
    assert_eq!(decode(Opcode::new(0x8AB1)), Some(Instruction::OrXy { x: 0xA, y: 0xB }));
    assert_eq!(decode(Opcode::new(0x8AB2)), Some(Instruction::AndXy { x: 0xA, y: 0xB }));
    assert_eq!(decode(Opcode::new(0x8AB3)), Some(Instruction::XorXy { x: 0xA, y: 0xB }));
    assert_eq!(decode(Opcode::new(0x8AB4)), Some(Instruction::AddXy { x: 0xA, y: 0xB }));
    assert_eq!(decode(Opcode::new(0x8AB5)), Some(Instruction::SubXy { x: 0xA, y: 0xB }));
    assert_eq!(decode(Opcode::new(0x8AB7)), Some(Instruction::SubnXy { x: 0xA, y: 0xB }));
    assert_eq!(decode(Opcode::new(0x8AB8)), None);
}

#[test]
fn decode_shifts_require_zero_y_nibble() {
    // The shift forms take the whole low byte: 8X06 and 8X0E only.
    assert_eq!(decode(Opcode::new(0x8A06)), Some(Instruction::ShrX { x: 0xA }));
    assert_eq!(decode(Opcode::new(0x8A16)), None);
    assert_eq!(decode(Opcode::new(0x8A0E)), Some(Instruction::ShlX { x: 0xA }));
    assert_eq!(decode(Opcode::new(0x8A2E)), None);
}

#[test]
fn decode_draw_needs_nonzero_height() {
    assert_eq!(decode(Opcode::new(0xDAB5)), Some(Instruction::Drw { x: 0xA, y: 0xB, n: 5 }));
    assert_eq!(decode(Opcode::new(0xDAB0)), None);
}

#[test]
fn decode_key_skips_by_low_byte() {
    assert_eq!(decode(Opcode::new(0xE39E)), Some(Instruction::SkpX { x: 3 }));
    assert_eq!(decode(Opcode::new(0xE3A1)), Some(Instruction::SknpX { x: 3 }));
    assert_eq!(decode(Opcode::new(0xE39F)), None);
}

#[test]
fn decode_timer_and_memory_forms() {
    assert_eq!(decode(Opcode::new(0xF507)), Some(Instruction::LdXDt { x: 5 }));
    assert_eq!(decode(Opcode::new(0xF50A)), Some(Instruction::LdKey { x: 5 }));
    assert_eq!(decode(Opcode::new(0xF515)), Some(Instruction::LdDtX { x: 5 }));
    assert_eq!(decode(Opcode::new(0xF518)), Some(Instruction::LdStX { x: 5 }));
    assert_eq!(decode(Opcode::new(0xF51E)), Some(Instruction::AddIX { x: 5 }));
    assert_eq!(decode(Opcode::new(0xF529)), Some(Instruction::LdXSprite { x: 5 }));
    assert_eq!(decode(Opcode::new(0xF533)), Some(Instruction::LdBcd { x: 5 }));
    assert_eq!(decode(Opcode::new(0xF555)), Some(Instruction::LdIX { x: 5 }));
    assert_eq!(decode(Opcode::new(0xF565)), Some(Instruction::LdXI { x: 5 }));
    assert_eq!(decode(Opcode::new(0xF570)), None);
}
