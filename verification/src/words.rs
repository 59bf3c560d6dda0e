//! Little-endian encodings of the 4- and 8-byte addresses that are read from
//! and written into process memory.
use vstd::prelude::*;
use crate::error::ProcessError;

verus! {

/// Size in bytes of a relative target address (a `rel32` operand).
pub const RELATIVE_ADDRESS_T: usize = 4;
/// Size in bytes of a double word.
pub const DWORD_T: usize = 4;
/// Size in bytes of a quad word.
pub const QWORD_T: usize = 8;

/// 2 to the 32.
pub open spec fn two32() -> int {
    0x1_0000_0000
}

/// 2 to the 64.
pub open spec fn two64() -> int {
    0x1_0000_0000_0000_0000
}

/// The unsigned value of four little-endian bytes.
pub open spec fn le_u32(b: Seq<u8>) -> int {
    b[0] + 256 * b[1] + 65536 * b[2] + 16777216 * b[3]
}

/// A 32-bit pattern read as a two's complement `i32`, widened.
pub open spec fn sign_extend32(u: int) -> int {
    if u >= 0x8000_0000 {
        u - two32()
    } else {
        u
    }
}

/// The four little-endian bytes of the low 32 bits of a non-negative `u`.
pub open spec fn dword_le(u: int) -> Seq<u8> {
    let v = u % two32();
    seq![(v % 256) as u8, ((v / 256) % 256) as u8, ((v / 65536) % 256) as u8, ((v / 16777216) % 256) as u8]
}

/// The eight little-endian bytes of a non-negative `u` below 2^64.
pub open spec fn qword_le(u: int) -> Seq<u8> {
    dword_le(u % two32()) + dword_le(u / two32())
}

/// A signed machine word seen as an unsigned one (two's complement), as the cast
/// from `LPARAM` to `WPARAM` does it.
pub open spec fn as_unsigned64(a: int) -> int {
    if a >= 0 {
        a
    } else {
        a + two64()
    }
}

/// Reads a relative address: four little-endian bytes as a sign-extended `i32`.
/// Any other number of bytes is refused with "Invalid address size.".
pub fn to_lparam(bytes: &[u8]) -> (r: Result<i64, ProcessError>)
    ensures
        bytes@.len() != RELATIVE_ADDRESS_T ==> r is Err && r->Err_0.message()
            == "Invalid address size."@,
        bytes@.len() == RELATIVE_ADDRESS_T ==> r == Ok::<i64, ProcessError>(
            sign_extend32(le_u32(bytes@)) as i64,
        ),
{
    if bytes.len() != RELATIVE_ADDRESS_T {
        return Err(ProcessError::new("Invalid address size."));
    }
    let u: u32 = bytes[0] as u32 + 256 * (bytes[1] as u32) + 65536 * (bytes[2] as u32)
        + 16777216 * (bytes[3] as u32);
    if u >= 0x8000_0000 {
        Ok(u as i64 - 0x1_0000_0000)
    } else {
        Ok(u as i64)
    }
}

/// The low double word of `addr`, as four little-endian bytes.
pub fn to_dword_bytes(addr: u64) -> (r: Result<[u8; 4], ProcessError>)
    ensures
        r is Ok,
        r->Ok_0@ == dword_le(addr as int),
{
    let v: u64 = addr % 0x1_0000_0000;
    let b0 = (v % 256) as u8;
    let b1 = ((v / 256) % 256) as u8;
    let b2 = ((v / 65536) % 256) as u8;
    let b3 = ((v / 16777216) % 256) as u8;
    let out = [b0, b1, b2, b3];
    assert(out@ =~= dword_le(addr as int));
    Ok(out)
}

/// The quad word `addr`, as eight little-endian bytes: low double word first.
pub fn to_qword_bytes(addr: u64) -> (r: Result<[u8; 8], ProcessError>)
    ensures
        r is Ok,
        r->Ok_0@ == qword_le(addr as int),
{
    let hi = to_dword_bytes(addr / 0x1_0000_0000);
    let lo = to_dword_bytes(addr % 0x1_0000_0000);
    match (hi, lo) {
        (Ok(hi), Ok(lo)) => {
            let out = [lo[0], lo[1], lo[2], lo[3], hi[0], hi[1], hi[2], hi[3]];
            assert(out@ =~= qword_le(addr as int));
            Ok(out)
        },
        _ => {
            assert(false);
            Err(ProcessError::new("Invalid address size."))
        },
    }
}

/// Decoding the four bytes of a double word gives back the double word: the low 32
/// bits of the encoded value.
pub proof fn lemma_dword_decode_encode(u: int)
    requires
        u >= 0,
    ensures
        dword_le(u).len() == 4,
        le_u32(dword_le(u)) == u % two32(),
{
    let v = u % two32();
    assert(0 <= v < two32());
    let q1 = v / 256;
    let q2 = v / 65536;
    let q3 = v / 16777216;
    assert(v == 256 * q1 + v % 256);
    assert(q1 == 256 * (v / 65536) + q1 % 256) by {
        assert(v / 65536 == q1 / 256);
    }
    assert(q2 == 256 * q3 + q2 % 256) by {
        assert(v / 16777216 == q2 / 256);
    }
    assert(q3 < 256);
}

/// Writing a relative address as a double word and reading it back gives the same
/// address, for every address that fits in 32 signed bits.
pub proof fn law_rel32_roundtrip(v: int)
    requires
        -0x8000_0000 <= v < 0x8000_0000,
    ensures
        dword_le(as_unsigned64(v)).len() == RELATIVE_ADDRESS_T,
        sign_extend32(le_u32(dword_le(as_unsigned64(v)))) == v,
{
    lemma_dword_decode_encode(as_unsigned64(v));
}

/// The unsigned value of eight little-endian bytes.
pub open spec fn le_u64(b: Seq<u8>) -> int {
    b[0] + 256 * b[1] + 65536 * b[2] + 16777216 * b[3] + 0x1_0000_0000 * b[4] + 0x100_0000_0000
        * b[5] + 0x1_0000_0000_0000 * b[6] + 0x100_0000_0000_0000 * b[7]
}

/// A quad word written as eight bytes reads back as itself, the high double word
/// included, for every value below 2^64.
pub proof fn law_qword_roundtrip(u: int)
    requires
        0 <= u < two64(),
    ensures
        qword_le(u).len() == QWORD_T,
        le_u64(qword_le(u)) == u,
{
    let lo = u % two32();
    let hi = u / two32();
    lemma_dword_decode_encode(lo);
    lemma_dword_decode_encode(hi);
    assert(0 <= hi < two32()) by (nonlinear_arith)
        requires
            0 <= u < two64(),
            hi == u / two32(),
            two64() == two32() * two32(),
            two32() > 0,
    {
    }
    assert(u == two32() * hi + lo) by (nonlinear_arith)
        requires
            hi == u / two32(),
            lo == u % two32(),
            two32() > 0,
    {
    }
    assert(lo % two32() == lo);
    assert(hi % two32() == hi);
    let q = qword_le(u);
    let d0 = dword_le(lo);
    let d1 = dword_le(hi);
    assert(q =~= d0 + d1);
    assert(le_u32(d0) == lo);
    assert(le_u32(d1) == hi);
    assert(le_u64(q) == le_u32(d0) + two32() * le_u32(d1));
}

} // verus!
