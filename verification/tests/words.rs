use fixfifa::words::{to_dword_bytes, to_lparam, to_qword_bytes};

#[test]
fn lparam_reads_little_endian_positive() {
    assert_eq!(to_lparam(&[0x78, 0x56, 0x34, 0x12]).unwrap(), 0x12345678);
}

#[test]
fn lparam_sign_extends_negative() {
    assert_eq!(to_lparam(&[0xFB, 0xFF, 0xFF, 0xFF]).unwrap(), -5);
}

#[test]
fn lparam_refuses_other_sizes() {
    let e = to_lparam(&[1, 2, 3]).unwrap_err();
    assert_eq!(e.description(), "Invalid address size.");
}

#[test]
fn dword_bytes_take_low_word() {
    assert_eq!(to_dword_bytes(0x1_2345_6789).unwrap(), [0x89, 0x67, 0x45, 0x23]);
}

#[test]
fn qword_bytes_are_little_endian() {
    assert_eq!(
        to_qword_bytes(0x0102_0304_0506_0708).unwrap(),
        [0x08, 0x07, 0x06, 0x05, 0x04, 0x03, 0x02, 0x01]
    );
}

#[test]
fn rel32_written_and_read_back() {
    for v in [-5i64, 0, 0x7FFF_FFFF, -0x8000_0000, 1234] {
        let bytes = to_dword_bytes(v as u64).unwrap();
        assert_eq!(to_lparam(&bytes).unwrap(), v);
    }
}
