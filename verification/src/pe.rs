//! The COFF machine field of a PE image (DLL or EXE), read from the first
//! bytes of the file.

use vstd::prelude::*;

verus! {

/// How many leading bytes of a file are read for `pe_machine`: 64 KiB, so
/// that packed images with a large `e_lfanew` (the format allows far more
/// than the usual 0x40..0x200) still parse.
pub const PE_HEADER_READ_LIMIT: usize = 65536usize;

/// Why bytes are not a PE image whose machine can be read.
#[derive(Clone, Copy, Debug, PartialEq, Eq, Structural)]
pub enum PeError {
    /// Shorter than the DOS header, or no "MZ" signature.
    NotPe,
    /// The PE header offset points past the data, or no "PE\0\0" there.
    MissingPeSignature,
}

/// Little-endian 16-bit value at `i`.
pub open spec fn le_u16(b: Seq<u8>, i: int) -> int {
    b[i] + b[i + 1] * 0x100
}

/// Little-endian 32-bit value at `i`.
pub open spec fn le_u32(b: Seq<u8>, i: int) -> int {
    b[i] + b[i + 1] * 0x100 + b[i + 2] * 0x1_0000 + b[i + 3] * 0x100_0000
}

/// Offset of the `e_lfanew` field (the PE header offset) in the DOS header.
pub open spec fn e_lfanew(b: Seq<u8>) -> int {
    le_u32(b, 0x3C)
}

/// Whether `b` holds "PE\0\0" at `at`.
pub open spec fn has_pe_signature(b: Seq<u8>, at: int) -> bool {
    b[at] == 0x50 && b[at + 1] == 0x45 && b[at + 2] == 0 && b[at + 3] == 0
}

/// The machine field of the PE image that starts with bytes `b`: it needs a
/// 64-byte DOS header starting with "MZ", and six bytes at the offset that
/// header names, starting with "PE\0\0"; the machine is the little-endian
/// 16-bit value after the signature.
pub open spec fn spec_pe_machine(b: Seq<u8>) -> Result<u16, PeError> {
    if b.len() < 0x40 || b[0] != 0x4D || b[1] != 0x5A {
        Err(PeError::NotPe)
    } else if e_lfanew(b) + 6 > b.len() || !has_pe_signature(b, e_lfanew(b)) {
        Err(PeError::MissingPeSignature)
    } else {
        Ok(le_u16(b, e_lfanew(b) + 4) as u16)
    }
}

/// Reads the COFF machine field from the leading bytes of a PE file.
pub fn pe_machine(buf: &[u8]) -> (r: Result<u16, PeError>)
    ensures
        r == spec_pe_machine(buf@),
{
    let n = buf.len();
    if n < 0x40 || buf[0] != 0x4D || buf[1] != 0x5A {
        return Err(PeError::NotPe);
    }
    let e: u64 = buf[0x3C] as u64 + buf[0x3D] as u64 * 0x100 + buf[0x3E] as u64 * 0x1_0000
        + buf[0x3F] as u64 * 0x100_0000;
    if e + 6 > n as u64 {
        return Err(PeError::MissingPeSignature);
    }
    let e = e as usize;
    if buf[e] != 0x50 || buf[e + 1] != 0x45 || buf[e + 2] != 0 || buf[e + 3] != 0 {
        return Err(PeError::MissingPeSignature);
    }
    let machine: u16 = buf[e + 4] as u16 + buf[e + 5] as u16 * 0x100;
    Ok(machine)
}

} // verus!
