//! Bounds-checked reading of the Windows PE headers that decide which
//! ProcDump binary can attach to a target.

use vstd::prelude::*;

verus! {

pub const IMAGE_FILE_MACHINE_I386: u16 = 0x014C;
pub const IMAGE_FILE_MACHINE_AMD64: u16 = 0x8664;
pub const IMAGE_FILE_MACHINE_ARM64: u16 = 0xAA64;

pub const COMIMAGE_FLAGS_32BITREQUIRED: u32 = 0x0000_0002;
pub const COMIMAGE_FLAGS_32BITPREFERRED: u32 = 0x0002_0000;

/// The PE specification caps an image at this many sections; the walk never
/// looks further, whatever `NumberOfSections` claims.
pub const MAX_SECTIONS: u64 = 96;

/// Little-endian u16 at `off`.
pub open spec fn le_u16(d: Seq<u8>, off: int) -> u16 {
    (d[off] as int + d[off + 1] as int * 256) as u16
}

/// Little-endian u32 at `off`.
pub open spec fn le_u32(d: Seq<u8>, off: int) -> u32 {
    (d[off] as int + d[off + 1] as int * 256 + d[off + 2] as int * 65536
        + d[off + 3] as int * 16777216) as u32
}

/// `n` bytes at `off` lie inside the image.
pub open spec fn in_bounds(d: Seq<u8>, off: int, n: int) -> bool {
    0 <= off && off + n <= d.len()
}

/// The four bytes at `off` read "PE\0\0".
pub open spec fn has_pe_signature(d: Seq<u8>, off: int) -> bool {
    d[off] == 0x50u8 && d[off + 1] == 0x45u8 && d[off + 2] == 0u8 && d[off + 3] == 0u8
}

/// `e_lfanew`: the file offset of the PE signature (a LE u32 at 0x3C).
pub open spec fn lfanew(d: Seq<u8>) -> int {
    le_u32(d, 0x3C) as int
}

/// `IMAGE_FILE_HEADER.Machine`, or None when the image has no readable,
/// correctly signed PE header.
pub open spec fn spec_pe_machine(d: Seq<u8>) -> Option<u16> {
    if !in_bounds(d, 0x3C, 4) {
        None
    } else if !in_bounds(d, lfanew(d), 6) {
        None
    } else if !has_pe_signature(d, lfanew(d)) {
        None
    } else {
        Some(le_u16(d, lfanew(d) + 4))
    }
}

/// Walk section headers `i .. n` of the table at `table` for the one whose
/// raw data covers `rva`; a header that cannot be read ends the walk with None.
pub open spec fn spec_rva_walk(d: Seq<u8>, table: int, n: int, rva: int, i: int) -> Option<int>
    decreases n - i,
{
    if i >= n {
        None
    } else if !in_bounds(d, table + i * 40, 24) {
        None
    } else {
        let va = le_u32(d, table + i * 40 + 12) as int;
        let raw_size = le_u32(d, table + i * 40 + 16) as int;
        let raw_start = le_u32(d, table + i * 40 + 20) as int;
        if va <= rva && rva < va + raw_size {
            Some(raw_start + (rva - va))
        } else {
            spec_rva_walk(d, table, n, rva, i + 1)
        }
    }
}

/// The RVA-to-file-offset translation over at most `MAX_SECTIONS` headers.
pub open spec fn spec_rva_to_file_offset(d: Seq<u8>, table: int, n_sections: int, rva: int) -> Option<int> {
    let n = if n_sections < MAX_SECTIONS as int { n_sections } else { MAX_SECTIONS as int };
    spec_rva_walk(d, table, n, rva, 0)
}

/// Offsets of `NumberOfRvaAndSizes` and of the data directories inside the
/// optional header, by its magic (PE32 / PE32+); None for any other magic.
pub open spec fn optional_header_layout(magic: u16) -> Option<(int, int)> {
    if magic == 0x10Bu16 {
        Some((92, 96))
    } else if magic == 0x20Bu16 {
        Some((108, 112))
    } else {
        None
    }
}

/// `IMAGE_COR20_HEADER.Flags` of a managed image; None when the image is
/// unmanaged, truncated or malformed anywhere along the walk.
pub open spec fn spec_cor20_flags(d: Seq<u8>) -> Option<u32> {
    if !in_bounds(d, 0x3C, 4) {
        None
    } else {
        let pe = lfanew(d);
        if !in_bounds(d, pe, 24) || !has_pe_signature(d, pe) {
            None
        } else {
            let n_sections = le_u16(d, pe + 6) as int;
            let opt_size = le_u16(d, pe + 20) as int;
            let opt = pe + 24;
            if !in_bounds(d, opt, 2) {
                None
            } else {
                match optional_header_layout(le_u16(d, opt)) {
                    None => None,
                    Some((n_rva_off, dirs_off)) => {
                        if !in_bounds(d, opt + n_rva_off, 4) {
                            None
                        } else if le_u32(d, opt + n_rva_off) <= 14 {
                            None
                        } else if !in_bounds(d, opt + dirs_off + 112, 8) {
                            None
                        } else {
                            let rva = le_u32(d, opt + dirs_off + 112) as int;
                            if rva == 0 {
                                None
                            } else {
                                match spec_rva_to_file_offset(d, opt + opt_size, n_sections, rva) {
                                    None => None,
                                    Some(at) => if in_bounds(d, at + 16, 4) {
                                        Some(le_u32(d, at + 16))
                                    } else {
                                        None
                                    },
                                }
                            }
                        }
                    }
                }
            }
        }
    }
}

fn read_u16_le(data: &[u8], off: u64) -> (r: Option<u16>)
    ensures
        r == (if in_bounds(data@, off as int, 2) { Some(le_u16(data@, off as int)) } else { None }),
{
    let len = data.len() as u64;
    if off > len || len - off < 2 {
        return None;
    }
    let o = off as usize;
    let v: u16 = data[o] as u16 + data[o + 1] as u16 * 256;
    Some(v)
}

fn read_u32_le(data: &[u8], off: u64) -> (r: Option<u32>)
    ensures
        r == (if in_bounds(data@, off as int, 4) { Some(le_u32(data@, off as int)) } else { None }),
{
    let len = data.len() as u64;
    if off > len || len - off < 4 {
        return None;
    }
    let o = off as usize;
    let v: u32 = data[o] as u32 + data[o + 1] as u32 * 256 + data[o + 2] as u32 * 65536
        + data[o + 3] as u32 * 16777216;
    Some(v)
}

fn has_signature_at(data: &[u8], off: u64) -> (r: bool)
    requires
        in_bounds(data@, off as int, 4),
    ensures
        r == has_pe_signature(data@, off as int),
{
    let o = off as usize;
    data[o] == 0x50 && data[o + 1] == 0x45 && data[o + 2] == 0 && data[o + 3] == 0
}

/// `IMAGE_FILE_HEADER.Machine` of a PE image held in memory.
pub fn pe_machine(data: &[u8]) -> (r: Option<u16>)
    ensures
        r == spec_pe_machine(data@),
{
    let off = match read_u32_le(data, 0x3C) {
        Some(v) => v as u64,
        None => return None,
    };
    let len = data.len() as u64;
    if off > len || len - off < 6 {
        return None;
    }
    if !has_signature_at(data, off) {
        return None;
    }
    read_u16_le(data, off + 4)
}

/// Translate an RVA to a file offset through the section table at `table`,
/// looking at no more than `MAX_SECTIONS` headers.
fn rva_to_file_offset(data: &[u8], table: u64, n_sections: u64, rva: u64) -> (r: Option<u64>)
    requires
        table < 0x1_0000_0000_0000,
        rva < 0x1_0000_0000,
    ensures
        r matches Some(v) ==> v < 0x2_0000_0000,
        r matches Some(v) ==> spec_rva_to_file_offset(data@, table as int, n_sections as int, rva as int) == Some(v as int),
        r is None ==> spec_rva_to_file_offset(data@, table as int, n_sections as int, rva as int) is None,
{
    let n = if n_sections < MAX_SECTIONS { n_sections } else { MAX_SECTIONS };
    let mut i: u64 = 0;
    while i < n
        invariant
            n <= MAX_SECTIONS,
            i <= n,
            n == (if n_sections < MAX_SECTIONS { n_sections } else { MAX_SECTIONS }),
            table < 0x1_0000_0000_0000,
            rva < 0x1_0000_0000,
            spec_rva_to_file_offset(data@, table as int, n_sections as int, rva as int)
                == spec_rva_walk(data@, table as int, n as int, rva as int, i as int),
        decreases n - i,
    {
        let hdr = table + i * 40;
        let va = match read_u32_le(data, hdr + 12) {
            Some(v) => v as u64,
            None => return None,
        };
        let raw_size = match read_u32_le(data, hdr + 16) {
            Some(v) => v as u64,
            None => return None,
        };
        let raw_start = match read_u32_le(data, hdr + 20) {
            Some(v) => v as u64,
            None => return None,
        };
        if rva >= va && rva < va + raw_size {
            return Some(raw_start + (rva - va));
        }
        i = i + 1;
    }
    None
}


/// `IMAGE_COR20_HEADER.Flags` of a managed image held in memory; None when
/// the image is unmanaged, truncated or malformed anywhere along the walk.
pub fn cor20_flags(data: &[u8]) -> (r: Option<u32>)
    ensures
        r == spec_cor20_flags(data@),
{
    let pe = match read_u32_le(data, 0x3C) {
        Some(v) => v as u64,
        None => return None,
    };
    let len = data.len() as u64;
    if pe > len || len - pe < 24 {
        return None;
    }
    if !has_signature_at(data, pe) {
        return None;
    }
    let n_sections = match read_u16_le(data, pe + 6) {
        Some(v) => v as u64,
        None => return None,
    };
    let opt_size = match read_u16_le(data, pe + 20) {
        Some(v) => v as u64,
        None => return None,
    };
    let opt = pe + 24;
    let magic = match read_u16_le(data, opt) {
        Some(v) => v,
        None => return None,
    };
    let (n_rva_off, dirs_off): (u64, u64) = if magic == 0x10B {
        (92, 96)
    } else if magic == 0x20B {
        (108, 112)
    } else {
        return None;
    };
    let n_rva = match read_u32_le(data, opt + n_rva_off) {
        Some(v) => v,
        None => return None,
    };
    if n_rva <= 14 {
        return None;
    }
    let dir = opt + dirs_off + 112;
    if dir > len || len - dir < 8 {
        return None;
    }
    let rva = match read_u32_le(data, dir) {
        Some(v) => v as u64,
        None => return None,
    };
    if rva == 0 {
        return None;
    }
    let at = match rva_to_file_offset(data, opt + opt_size, n_sections, rva) {
        Some(v) => v,
        None => return None,
    };
    read_u32_le(data, at + 16)
}

} // verus!
