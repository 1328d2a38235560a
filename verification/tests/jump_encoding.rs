use boopass::jump::{encode_jump, le32_encode, rel32_displacement, JMP_LEN, JMP_OPCODE};

/// Where a `jmp rel32` with bytes `b` at `from` lands in a 32-bit address space.
fn landing(from: u64, b: &[u8]) -> u64 {
    let disp = u32::from_le_bytes([b[1], b[2], b[3], b[4]]) as u64;
    (from + JMP_LEN as u64 + disp) % 0x1_0000_0000
}

#[test]
fn forward_jump_bytes() {
    assert_eq!(encode_jump(0x1000, 0x2000), [0xE9, 0xFB, 0x0F, 0x00, 0x00]);
}

#[test]
fn backward_jump_bytes() {
    assert_eq!(encode_jump(0x2000, 0x1000), [0xE9, 0xFB, 0xEF, 0xFF, 0xFF]);
}

#[test]
fn jump_to_its_own_end_has_zero_displacement() {
    assert_eq!(rel32_displacement(0x7700_0000, 0x7700_0005), 0);
    assert_eq!(encode_jump(0x7700_0000, 0x7700_0005), [0xE9, 0, 0, 0, 0]);
}

#[test]
fn jump_to_itself_is_minus_five() {
    assert_eq!(rel32_displacement(0x4000, 0x4000), 0xFFFF_FFFB);
}

#[test]
fn displacement_wraps_modulo_two_to_the_32() {
    assert_eq!(rel32_displacement(0xFFFF_FFF0, 0x10), 0x1B);
    assert_eq!(rel32_displacement(0x10, 0xFFFF_FFF0), 0xFFFF_FFDB);
}

#[test]
fn little_endian_split() {
    assert_eq!(le32_encode(0x1234_5678), [0x78, 0x56, 0x34, 0x12]);
    assert_eq!(le32_encode(0), [0, 0, 0, 0]);
    assert_eq!(le32_encode(u32::MAX), [0xFF, 0xFF, 0xFF, 0xFF]);
}

#[test]
fn opcode_and_length() {
    assert_eq!(JMP_OPCODE, 0xE9);
    assert_eq!(JMP_LEN, 5);
}

#[test]
fn encoded_jumps_land_on_their_targets() {
    let pairs: [(u64, u64); 6] = [
        (0x1000, 0x2000),
        (0x2000, 0x1000),
        (0x7FFF_0000, 0x0040_1000),
        (0x0040_1000, 0x7FFF_0000),
        (0xFFFF_FFFA, 0x0000_0003),
        (0, 0xFFFF_FFFF),
    ];
    for (from, to) in pairs {
        let b = encode_jump(from as usize, to as usize);
        assert_eq!(b[0], JMP_OPCODE);
        assert_eq!(landing(from, &b), to);
    }
}
