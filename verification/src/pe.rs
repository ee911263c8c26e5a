//! The PE/COFF decoder.
//!
//! A PE image starts with the DOS stub: the two magic bytes `MZ`, and at
//! offset `0x3c` the file offset of the PE signature `PE\0\0`. The COFF
//! header follows the signature: machine field, number of sections, and the
//! size of the optional header, which in turn locates the section table.
//! Each section-table entry is forty bytes: an eight-byte NUL-padded name,
//! virtual size, virtual address, size of raw data, pointer to raw data,
//! and the characteristics flags. All fields are little-endian.
//!
//! [`PeFile::parse`] accepts a buffer exactly when [`pe_valid`] holds of it:
//! the magic and signature are present, the whole section table lies within
//! the buffer, and every section's raw-data range does too.

use vstd::prelude::*;
use vstd::slice::slice_index_get;

use crate::DecodeError;
use crate::Machine;
use crate::SectionKind;
use crate::SectionRec;
use crate::Symbol;
use crate::bytes::cstr;
use crate::bytes::read_cstr;
use crate::bytes::read_u16;
use crate::bytes::read_u32;
use crate::bytes::word16;
use crate::bytes::word32;

verus! {

/// COFF machine field value for x86.
pub const COFF_MACHINE_X86: u16 = 0x14c;

/// COFF machine field value for x86-64.
pub const COFF_MACHINE_X86_64: u16 = 0x8664;

/// Section characteristics: the section contains executable code.
pub const IMAGE_SCN_CNT_CODE: u32 = 0x00000020;

/// Section characteristics: the section contains initialized data.
pub const IMAGE_SCN_CNT_INITIALIZED_DATA: u32 = 0x00000040;

/// Section characteristics: the section contains uninitialized data.
pub const IMAGE_SCN_CNT_UNINITIALIZED_DATA: u32 = 0x00000080;

/// Section characteristics: the section can be executed as code.
pub const IMAGE_SCN_MEM_EXECUTE: u32 = 0x20000000;

/// The buffer starts with the `MZ` magic of a PE image.
pub open spec fn is_pe_magic(s: Seq<u8>) -> bool {
    s.len() >= 2 && s[0] == 0x4d && s[1] == 0x5a
}

/// File offset of the PE signature, read from the DOS header.
pub open spec fn pe_sig_off(s: Seq<u8>) -> int {
    word32(s, 0x3c, true)
}

/// The DOS header, the PE signature and the COFF header are all present.
pub open spec fn pe_header_ok(s: Seq<u8>) -> bool {
    &&& s.len() >= 0x40
    &&& is_pe_magic(s)
    &&& pe_sig_off(s) + 24 <= s.len()
    &&& s[pe_sig_off(s)] == 0x50
    &&& s[pe_sig_off(s) + 1] == 0x45
    &&& s[pe_sig_off(s) + 2] == 0
    &&& s[pe_sig_off(s) + 3] == 0
}

/// The COFF header's machine field.
pub open spec fn pe_machine_field(s: Seq<u8>) -> int {
    word16(s, pe_sig_off(s) + 4, true)
}

/// The COFF header's section count.
pub open spec fn pe_section_count(s: Seq<u8>) -> int {
    word16(s, pe_sig_off(s) + 6, true)
}

/// The COFF header's size of the optional header.
pub open spec fn pe_opt_header_size(s: Seq<u8>) -> int {
    word16(s, pe_sig_off(s) + 20, true)
}

/// File offset of the section table.
pub open spec fn pe_section_table_off(s: Seq<u8>) -> int {
    pe_sig_off(s) + 24 + pe_opt_header_size(s)
}

/// File offset of section-table entry `i`.
pub open spec fn pe_section_entry_off(s: Seq<u8>, i: int) -> int {
    pe_section_table_off(s) + 40 * i
}

/// The whole section table lies within the buffer.
pub open spec fn pe_table_ok(s: Seq<u8>) -> bool {
    pe_section_table_off(s) + 40 * pe_section_count(s) <= s.len()
}

/// The raw-data range declared by section-table entry `i` lies within the
/// buffer.
pub open spec fn pe_section_data_ok(s: Seq<u8>, i: int) -> bool {
    word32(s, pe_section_entry_off(s, i) + 20, true) + word32(s, pe_section_entry_off(s, i) + 16, true)
        <= s.len()
}

/// A buffer is an acceptable PE image: headers present, section table and
/// every section's raw data within bounds.
pub open spec fn pe_valid(s: Seq<u8>) -> bool {
    &&& pe_header_ok(s)
    &&& pe_table_ok(s)
    &&& forall|i: int| 0 <= i < pe_section_count(s) ==> #[trigger] pe_section_data_ok(s, i)
}

/// The error an unacceptable PE buffer decodes to: a missing magic,
/// signature or header is a malformed header; anything further is a table
/// that runs out of the buffer.
pub open spec fn pe_decode_err(s: Seq<u8>) -> DecodeError {
    if pe_header_ok(s) {
        DecodeError::TruncatedOrOutOfBoundsTable
    } else {
        DecodeError::MalformedHeader
    }
}

/// The machine type denoted by a COFF machine field value.
pub open spec fn spec_pe_machine(m: int) -> Machine {
    if m == COFF_MACHINE_X86 {
        Machine::X86
    } else if m == COFF_MACHINE_X86_64 {
        Machine::X86_64
    } else {
        Machine::Other
    }
}

/// An unrecognized machine field value maps to `Machine::Other`: an
/// unknown architecture is a representable state, never a failure.
pub proof fn lemma_pe_unknown_machine_is_other(m: int)
    requires
        m != COFF_MACHINE_X86,
        m != COFF_MACHINE_X86_64,
    ensures
        spec_pe_machine(m) == Machine::Other,
{
}

/// The classification rule for PE sections, a pure function of the
/// characteristics flags, in this fixed precedence order: code or executable
/// means text; else initialized data means data; else uninitialized data
/// means uninitialized data; else the kind is unknown. PE does not
/// distinguish read-only data.
pub open spec fn spec_pe_section_kind(characteristics: u32) -> SectionKind {
    if characteristics & (IMAGE_SCN_CNT_CODE | IMAGE_SCN_MEM_EXECUTE) != 0 {
        SectionKind::Text
    } else if characteristics & IMAGE_SCN_CNT_INITIALIZED_DATA != 0 {
        SectionKind::Data
    } else if characteristics & IMAGE_SCN_CNT_UNINITIALIZED_DATA != 0 {
        SectionKind::UninitializedData
    } else {
        SectionKind::Unknown
    }
}

/// Classify a PE section from its characteristics flags.
pub fn pe_section_kind(characteristics: u32) -> (r: SectionKind)
    ensures
        r == spec_pe_section_kind(characteristics),
{
    if characteristics & (IMAGE_SCN_CNT_CODE | IMAGE_SCN_MEM_EXECUTE) != 0 {
        SectionKind::Text
    } else if characteristics & IMAGE_SCN_CNT_INITIALIZED_DATA != 0 {
        SectionKind::Data
    } else if characteristics & IMAGE_SCN_CNT_UNINITIALIZED_DATA != 0 {
        SectionKind::UninitializedData
    } else {
        SectionKind::Unknown
    }
}

/// The classification rule is deterministic: equal characteristics always
/// classify to the same kind.
pub proof fn lemma_pe_section_kind_deterministic(a: u32, b: u32)
    requires
        a == b,
    ensures
        spec_pe_section_kind(a) == spec_pe_section_kind(b),
{
}

/// The record `rec` holds exactly what section-table entry `i` declares.
pub open spec fn pe_section_rec_ok(s: Seq<u8>, i: int, rec: SectionRec) -> bool {
    let e = pe_section_entry_off(s, i);
    &&& rec.name matches Some(nm) && nm@ == cstr(s, e, e + 8)
    &&& rec.segment_name is None
    &&& rec.size == word32(s, e + 8, true)
    &&& rec.address == word32(s, e + 12, true)
    &&& rec.file_size == word32(s, e + 16, true)
    &&& rec.offset == word32(s, e + 20, true)
    &&& rec.kind == spec_pe_section_kind(word32(s, e + 36, true) as u32)
}

/// A decoded PE object file.
#[derive(Debug)]
pub struct PeFile {
    /// The COFF header's machine field.
    pub coff_machine: u16,
    /// One record per section-table entry, in table order.
    pub sections: Vec<SectionRec>,
    /// Symbol tables are not decoded for this format; the list is empty.
    pub symbols: Vec<Symbol>,
}

impl PeFile {
    /// Every stored section record stays within a buffer of length `n`.
    pub open spec fn wf(self, n: int) -> bool {
        forall|i: int|
            0 <= i < self.sections@.len() ==> (#[trigger] self.sections@[i]).in_bounds(n)
    }

    /// Everything [`parse`](PeFile::parse) promises of a decoded file:
    /// the buffer is acceptable, the records are in bounds and reproduce the
    /// section table entry by entry, the machine field is the header's, and
    /// the symbol list is empty.
    pub open spec fn parse_ok(self, s: Seq<u8>) -> bool {
        &&& pe_valid(s)
        &&& self.wf(s.len() as int)
        &&& self.coff_machine == pe_machine_field(s)
        &&& self.sections@.len() == pe_section_count(s)
        &&& forall|i: int|
            0 <= i < self.sections@.len() ==> pe_section_rec_ok(s, i, #[trigger] self.sections@[i])
        &&& self.symbols@.len() == 0
    }

    /// Parse the raw PE file data. Succeeds exactly on buffers that
    /// [`pe_valid`] accepts; a failure distinguishes a malformed header from
    /// a table that runs out of the buffer.
    pub fn parse(data: &[u8]) -> (r: Result<PeFile, DecodeError>)
        ensures
            match r {
                Ok(f) => f.parse_ok(data@),
                Err(e) => !pe_valid(data@) && e == pe_decode_err(data@),
            },
    {
        let len = data.len();
        if len < 0x40 {
            return Err(DecodeError::MalformedHeader);
        }
        if *slice_index_get(data, 0) != 0x4d || *slice_index_get(data, 1) != 0x5a {
            return Err(DecodeError::MalformedHeader);
        }
        let e_lfanew = read_u32(data, 0x3c, true);
        if !(e_lfanew as u64 + 24 <= len as u64) {
            return Err(DecodeError::MalformedHeader);
        }
        let sig = e_lfanew as usize;
        if *slice_index_get(data, sig) != 0x50 || *slice_index_get(data, sig + 1) != 0x45
            || *slice_index_get(data, sig + 2) != 0 || *slice_index_get(data, sig + 3) != 0 {
            return Err(DecodeError::MalformedHeader);
        }
        proof {
            assert(pe_header_ok(data@));
        }
        let coff_machine = read_u16(data, sig + 4, true);
        let nsecs = read_u16(data, sig + 6, true);
        let opt_size = read_u16(data, sig + 20, true);
        let table_end_wide = sig as u64 + 24 + opt_size as u64 + 40 * nsecs as u64;
        if !(table_end_wide <= len as u64) {
            return Err(DecodeError::TruncatedOrOutOfBoundsTable);
        }
        let table_off: usize = sig + 24 + opt_size as usize;
        proof {
            assert(table_off == pe_section_table_off(data@));
            assert(pe_table_ok(data@));
        }
        let nsecs_us = nsecs as usize;
        let mut sections: Vec<SectionRec> = Vec::new();
        let mut i: usize = 0;
        while i < nsecs_us
            invariant
                pe_header_ok(data@),
                pe_table_ok(data@),
                len == data@.len(),
                table_off == pe_section_table_off(data@),
                nsecs_us == pe_section_count(data@),
                table_off + 40 * nsecs_us <= len,
                0 <= i <= nsecs_us,
                sections@.len() == i,
                forall|k: int| 0 <= k < i ==> #[trigger] pe_section_data_ok(data@, k),
                forall|k: int|
                    0 <= k < i ==> pe_section_rec_ok(data@, k, #[trigger] sections@[k]),
                forall|k: int| 0 <= k < i ==> (#[trigger] sections@[k]).in_bounds(len as int),
            decreases nsecs_us - i,
        {
            let e = table_off + 40 * i;
            proof {
                assert(e + 40 <= len);
                assert(e == pe_section_entry_off(data@, i as int));
            }
            let name = read_cstr(data, e, e + 8);
            let vsize = read_u32(data, e + 8, true);
            let vaddr = read_u32(data, e + 12, true);
            let rawsz = read_u32(data, e + 16, true);
            let rawptr = read_u32(data, e + 20, true);
            let characteristics = read_u32(data, e + 36, true);
            if !(rawptr as u64 + rawsz as u64 <= len as u64) {
                proof {
                    assert(!pe_section_data_ok(data@, i as int));
                }
                return Err(DecodeError::TruncatedOrOutOfBoundsTable);
            }
            let kind = pe_section_kind(characteristics);
            let rec = SectionRec {
                name: Some(name),
                segment_name: None,
                address: vaddr as u64,
                size: vsize as u64,
                offset: rawptr as usize,
                file_size: rawsz as usize,
                kind,
            };
            proof {
                assert(pe_section_data_ok(data@, i as int));
                assert(pe_section_rec_ok(data@, i as int, rec));
                assert(rec.in_bounds(len as int));
            }
            sections.push(rec);
            i = i + 1;
        }
        Ok(PeFile { coff_machine, sections, symbols: Vec::new() })
    }

    /// Machine type, resolved from the COFF header's machine field.
    /// Unrecognized values map to `Machine::Other`, never to an error.
    pub fn machine(&self) -> (r: Machine)
        ensures
            r == spec_pe_machine(self.coff_machine as int),
    {
        if self.coff_machine == COFF_MACHINE_X86 {
            Machine::X86
        } else if self.coff_machine == COFF_MACHINE_X86_64 {
            Machine::X86_64
        } else {
            Machine::Other
        }
    }

    /// PE images are little-endian.
    pub fn is_little_endian(&self) -> (r: bool)
        ensures
            r,
    {
        true
    }
}

} // verus!
