use fixfifa::error::ProcessError;
use fixfifa::memory::{
    accept_read, accept_write, address_bytes, rel_jump_bytes, rel_operand_address, rel_target,
    ModuleInfo,
};

#[test]
fn empty_read_is_refused() {
    assert_eq!(accept_read(vec![]).unwrap_err().description(), "Read zero bytes.");
    assert_eq!(accept_read(vec![1, 2]).unwrap(), vec![1, 2]);
}

#[test]
fn write_answers() {
    assert_eq!(accept_write(0x1000, 4, 0).unwrap_err().description(), "Wrote zero bytes.");
    assert_eq!(
        accept_write(0x1000, 4, 3).unwrap_err().description(),
        "Wrote unexpected number of bytes."
    );
    assert_eq!(accept_write(0x1000, 4, 4).unwrap(), 0x1004);
}

#[test]
fn address_bytes_by_size() {
    assert_eq!(address_bytes(0x1122_3344_5566_7788, 4).unwrap(), vec![0x88, 0x77, 0x66, 0x55]);
    assert_eq!(
        address_bytes(0x1122_3344_5566_7788, 8).unwrap(),
        vec![0x88, 0x77, 0x66, 0x55, 0x44, 0x33, 0x22, 0x11]
    );
    assert_eq!(address_bytes(-1, 4).unwrap(), vec![0xFF, 0xFF, 0xFF, 0xFF]);
    assert_eq!(address_bytes(-2, 8).unwrap(), vec![0xFE, 0xFF, 0xFF, 0xFF, 0xFF, 0xFF, 0xFF, 0xFF]);
    assert_eq!(address_bytes(1, 2).unwrap_err().description(), "Invalid address size.");
}

#[test]
fn relative_operands() {
    assert_eq!(rel_operand_address(0x1000, 7), 0x1003);
    assert_eq!(rel_target(0x1000, 7, -0x10), 0xFF7);
}

#[test]
fn jump_bytes_reach_target() {
    let b = rel_jump_bytes(0x1000, &[0xE9], 0x2000);
    assert_eq!(b, vec![0xE9, 0xFB, 0x0F, 0x00, 0x00]);
    let back = rel_jump_bytes(0x2000, &[0xE9], 0x1000);
    assert_eq!(back, vec![0xE9, 0xFB, 0xEF, 0xFF, 0xFF]);
    let rel = fixfifa::words::to_lparam(&back[1..5]).unwrap();
    assert_eq!(rel_target(0x2000, 5, rel), 0x1000);
}

#[test]
fn module_extent() {
    let m = ModuleInfo::from_image(0x40_0000, 0x1000, 0x40_0100);
    assert_eq!((m.start, m.end, m.entry, m.size), (0x40_0000, 0x40_1000, 0x40_0100, 0x1000));
}

#[test]
fn error_messages() {
    assert_eq!(ProcessError::NotYetImplemented("exec").description(), "Not Yet Implemented: exec.");
    assert_eq!(ProcessError::new("x").to_string(), "x");
}

#[test]
fn error_from_a_message() {
    let e = ProcessError::from(String::from("Read zero bytes."));
    assert_eq!(e.description(), "Read zero bytes.");
    let e: ProcessError = String::from("Os error.").into();
    assert_eq!(e.to_string(), "Os error.");
}

#[test]
fn written_jump_is_read_back() {
    let mut mem = vec![0u8; 64];
    let address: i64 = 8;
    let op = [0x0F, 0x85];
    let target: i64 = -0x1234;
    let bytes = rel_jump_bytes(address, &op, target);
    mem[8..8 + bytes.len()].copy_from_slice(&bytes);
    let op_size = op.len() + 4;
    let at = rel_operand_address(address, op_size) as usize;
    let rel = fixfifa::words::to_lparam(&mem[at..at + 4]).unwrap();
    assert_eq!(rel_target(address, op_size, rel), target);
}
