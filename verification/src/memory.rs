//! What a read or a write of process memory is answered, relative jump operands,
//! and the extent of a loaded module.
use vstd::prelude::*;
use crate::error::ProcessError;
use crate::words::{
    RELATIVE_ADDRESS_T, DWORD_T, QWORD_T, to_dword_bytes, to_qword_bytes, to_lparam,
    as_unsigned64, dword_le, qword_le, le_u32, sign_extend32, two64,
    lemma_dword_decode_encode,
};

verus! {

/// Size of the buffer that one read of process memory fills at most.
pub const BUFFER_T: usize = 8192;

/// A read that returned no byte is refused with "Read zero bytes."; any other
/// read gives its bytes back unchanged.
pub fn accept_read(bytes: Vec<u8>) -> (r: Result<Vec<u8>, ProcessError>)
    ensures
        bytes@.len() == 0 ==> r is Err && r->Err_0.message() == "Read zero bytes."@,
        bytes@.len() > 0 ==> r is Ok && r->Ok_0@ == bytes@,
{
    if bytes.len() == 0 {
        Err(ProcessError::new("Read zero bytes."))
    } else {
        Ok(bytes)
    }
}

/// The answer to a write of `requested` bytes at `address` of which `written`
/// were written: the address just behind them, or the error that names the fault.
pub fn accept_write(address: i64, requested: usize, written: usize) -> (r: Result<i64, ProcessError>)
    requires
        written <= i64::MAX,
        address + written <= i64::MAX,
    ensures
        written == 0 ==> r is Err && r->Err_0.message() == "Wrote zero bytes."@,
        written != 0 && written != requested ==> r is Err && r->Err_0.message()
            == "Wrote unexpected number of bytes."@,
        written != 0 && written == requested ==> r == Ok::<i64, ProcessError>(
            (address + written) as i64,
        ),
{
    if written == 0 {
        return Err(ProcessError::new("Wrote zero bytes."));
    }
    if written != requested {
        return Err(ProcessError::new("Wrote unexpected number of bytes."));
    }
    let w = written as i64;
    Ok(address + w)
}

/// The bytes that `write_addr` writes for `addr` in a field of `size` bytes: the
/// low double word or the whole quad word of `addr` seen as unsigned, little-endian.
/// Any other size is refused with "Invalid address size.".
pub fn address_bytes(addr: i64, size: usize) -> (r: Result<Vec<u8>, ProcessError>)
    ensures
        size == DWORD_T ==> r is Ok && r->Ok_0@ == dword_le(as_unsigned64(addr as int)),
        size == QWORD_T ==> r is Ok && r->Ok_0@ == qword_le(as_unsigned64(addr as int)),
        size != DWORD_T && size != QWORD_T ==> r is Err && r->Err_0.message()
            == "Invalid address size."@,
{
    let w: u64 = if addr >= 0 {
        addr as u64
    } else {
        ((addr + i64::MAX) + 1) as u64 + 0x8000_0000_0000_0000u64
    };
    assert(w as int == as_unsigned64(addr as int));
    if size == DWORD_T {
        match to_dword_bytes(w) {
            Ok(b) => {
                let mut v: Vec<u8> = Vec::new();
                v.push(b[0]);
                v.push(b[1]);
                v.push(b[2]);
                v.push(b[3]);
                assert(v@ =~= b@);
                Ok(v)
            },
            Err(e) => Err(e),
        }
    } else if size == QWORD_T {
        match to_qword_bytes(w) {
            Ok(b) => {
                let mut v: Vec<u8> = Vec::new();
                let mut i: usize = 0;
                while i < 8
                    invariant
                        0 <= i <= 8,
                        b@.len() == 8,
                        v@ =~= b@.subrange(0, i as int),
                    decreases 8 - i,
                {
                    v.push(b[i]);
                    i = i + 1;
                }
                assert(v@ =~= b@);
                Ok(v)
            },
            Err(e) => Err(e),
        }
    } else {
        Err(ProcessError::new("Invalid address size."))
    }
}

/// Where the four-byte relative operand of an instruction of `op_size` bytes at
/// `address` stands: the last four bytes of the instruction.
pub fn rel_operand_address(address: i64, op_size: usize) -> (r: i64)
    requires
        RELATIVE_ADDRESS_T <= op_size <= i64::MAX,
        address + op_size <= i64::MAX,
    ensures
        r == address + op_size - RELATIVE_ADDRESS_T,
{
    let d = (op_size - RELATIVE_ADDRESS_T) as i64;
    address + d
}

/// The target of a relative jump or call of `op_size` bytes at `address` whose
/// operand reads `rel`: relative to the end of the instruction.
pub fn rel_target(address: i64, op_size: usize, rel: i64) -> (r: i64)
    requires
        op_size <= i64::MAX,
        i64::MIN <= address + op_size + rel <= i64::MAX,
        address + op_size <= i64::MAX,
    ensures
        r == address + op_size + rel,
{
    let d = op_size as i64;
    address + d + rel
}

/// The relative operand that makes an instruction of `op_len` opcode bytes at
/// `address` reach `target`: measured from the end of the instruction.
pub open spec fn rel_operand(address: int, op_len: int, target: int) -> int {
    target - address - (op_len + RELATIVE_ADDRESS_T)
}

/// The bytes that `write_rel_target` writes at `address` for a jump or call to
/// `target`: the opcode bytes `op`, then the low double word of the relative operand.
pub fn rel_jump_bytes(address: i64, op: &[u8], target: i64) -> (r: Vec<u8>)
    requires
        i64::MIN <= target - address <= i64::MAX,
        op@.len() + RELATIVE_ADDRESS_T <= i64::MAX,
        i64::MIN <= rel_operand(address as int, op@.len() as int, target as int) <= i64::MAX,
    ensures
        r@ == op@ + dword_le(
            as_unsigned64(rel_operand(address as int, op@.len() as int, target as int)),
        ),
{
    let span: i64 = op.len() as i64 + 4;
    let rel: i64 = target - address - span;
    let mut out: Vec<u8> = Vec::new();
    let mut i: usize = 0;
    while i < op.len()
        invariant
            0 <= i <= op@.len(),
            out@ =~= op@.subrange(0, i as int),
        decreases op@.len() - i,
    {
        out.push(op[i]);
        i = i + 1;
    }
    let tail = address_bytes(rel, DWORD_T);
    match tail {
        Ok(t) => {
            let mut j: usize = 0;
            while j < t.len()
                invariant
                    0 <= j <= t@.len(),
                    out@ =~= op@ + t@.subrange(0, j as int),
                decreases t@.len() - j,
            {
                out.push(t[j]);
                j = j + 1;
            }
            assert(t@.subrange(0, t@.len() as int) =~= t@);
            out
        },
        Err(_) => {
            assert(false);
            out
        },
    }
}

/// A jump or call written with `rel_jump_bytes` is read back by `rel_target` as the
/// target it was written for, whenever its relative operand fits in 32 signed bits.
pub proof fn law_rel_jump_roundtrip(address: int, op: Seq<u8>, target: int)
    requires
        -0x8000_0000 <= rel_operand(address, op.len() as int, target) < 0x8000_0000,
    ensures
        ({
            let b = op + dword_le(as_unsigned64(rel_operand(address, op.len() as int, target)));
            let op_size = op.len() + RELATIVE_ADDRESS_T;
            &&& b.len() == op_size
            &&& b.subrange(op_size - RELATIVE_ADDRESS_T, op_size as int) =~= dword_le(
                as_unsigned64(rel_operand(address, op.len() as int, target)),
            )
            &&& address + op_size + sign_extend32(
                le_u32(b.subrange(op_size - RELATIVE_ADDRESS_T, op_size as int)),
            ) == target
        }),
{
    let v = rel_operand(address, op.len() as int, target);
    crate::words::law_rel32_roundtrip(v);
    let b = op + dword_le(as_unsigned64(v));
    assert(b.subrange(op.len() as int, op.len() + 4int) =~= dword_le(as_unsigned64(v)));
}

/// The memory `f` after `bytes` were written at `address`.
pub open spec fn written(f: spec_fn(int) -> u8, address: int, bytes: Seq<u8>) -> spec_fn(int) -> u8 {
    |a: int| if address <= a < address + bytes.len() { bytes[a - address] } else { f(a) }
}

/// What `write_rel_target` writes, `read_rel_target` reads back: after the bytes of
/// `rel_jump_bytes(address, op, target)` were written at `address` into any memory, the
/// four bytes at `rel_operand_address(address, op.len() + 4)`, decoded as `to_lparam`
/// does and taken relative to the end of the instruction as `rel_target` does, give
/// `target`, whenever the relative operand fits in 32 signed bits.
pub proof fn law_written_jump_reads_back(f: spec_fn(int) -> u8, address: int, op: Seq<u8>, target: int)
    requires
        -0x8000_0000 <= rel_operand(address, op.len() as int, target) < 0x8000_0000,
    ensures
        ({
            let b = op + dword_le(as_unsigned64(rel_operand(address, op.len() as int, target)));
            let op_size = op.len() + RELATIVE_ADDRESS_T;
            let at = address + op_size - RELATIVE_ADDRESS_T;
            let g = written(f, address, b);
            address + op_size + sign_extend32(le_u32(Seq::new(4, |i: int| g(at + i)))) == target
        }),
{
    law_rel_jump_roundtrip(address, op, target);
    let b = op + dword_le(as_unsigned64(rel_operand(address, op.len() as int, target)));
    let op_size = op.len() + RELATIVE_ADDRESS_T;
    let at = address + op_size - RELATIVE_ADDRESS_T;
    let g = written(f, address, b);
    assert(Seq::new(4, |i: int| g(at + i)) =~= b.subrange(op_size - RELATIVE_ADDRESS_T, op_size as int));
}

/// After `write_rel_target` succeeded, `read_rel_target` can run: when the jump was
/// computed (the requires of `rel_jump_bytes` held) and written (`accept_write` answers
/// `Ok` only when the end of the written bytes fits in a machine word), the requires of
/// `rel_operand_address` and of `rel_target` (with the operand read back, whenever it
/// fits in 32 signed bits) hold, and `rel_target` gives the target.
pub proof fn law_jump_round_trip_is_in_range(address: i64, op_len: int, target: i64)
    requires
        0 <= op_len,
        i64::MIN <= target - address <= i64::MAX,
        op_len + RELATIVE_ADDRESS_T <= i64::MAX,
        -0x8000_0000 <= rel_operand(address as int, op_len, target as int) < 0x8000_0000,
        address + op_len + RELATIVE_ADDRESS_T <= i64::MAX,
    ensures
        RELATIVE_ADDRESS_T <= op_len + RELATIVE_ADDRESS_T <= i64::MAX,
        address + (op_len + RELATIVE_ADDRESS_T) <= i64::MAX,
        ({
            let rel = rel_operand(address as int, op_len, target as int);
            &&& i64::MIN <= address + (op_len + RELATIVE_ADDRESS_T) + rel <= i64::MAX
            &&& address + (op_len + RELATIVE_ADDRESS_T) + rel == target
        }),
{
}

/// The extent of a loaded module.
pub struct ModuleInfo {
    pub start: i64,
    pub end: i64,
    pub entry: i64,
    pub size: usize,
}

impl ModuleInfo {
    /// The module that starts at `base`, is `size_of_image` bytes long and is entered
    /// at `entry`: it ends `size_of_image` bytes behind its start.
    pub fn from_image(base: i64, size_of_image: u32, entry: i64) -> (m: ModuleInfo)
        requires
            base + size_of_image <= i64::MAX,
        ensures
            m.start == base,
            m.end == base + size_of_image,
            m.entry == entry,
            m.size == size_of_image,
    {
        ModuleInfo { start: base, end: base + size_of_image as i64, entry, size: size_of_image as usize }
    }
}

} // verus!
