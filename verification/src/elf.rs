//! The ELF decoder.
//!
//! An ELF image starts with the identification bytes: the magic
//! `0x7f 'E' 'L' 'F'`, a class byte selecting 32- or 64-bit field widths,
//! and a data byte selecting little- or big-endian multi-byte fields. The
//! header then locates the program-header table, whose `PT_LOAD` entries
//! are the loadable segments, and the section-header table. Section and
//! symbol names are NUL-terminated strings inside string-table sections;
//! the header names the section-name string table, and a symbol table's
//! link field names its string table.
//!
//! [`ElfFile::parse`] accepts a buffer exactly when [`elf_valid`] holds of
//! it: magic, class and data bytes are valid, the whole header is present,
//! both tables lie within the buffer, every non-`SHT_NOBITS` section's data
//! range does too, and so does every `PT_LOAD` segment's file-backed range.

use vstd::prelude::*;
use vstd::slice::slice_index_get;
use vstd::arithmetic::div_mod::lemma_fundamental_div_mod;

use crate::DecodeError;
use crate::Machine;
use crate::SectionKind;
use crate::SectionRec;
use crate::SegmentRec;
use crate::Symbol;
use crate::SymbolKind;
use crate::bytes::cstr;
use crate::bytes::read_cstr;
use crate::bytes::read_u16;
use crate::bytes::read_u32;
use crate::bytes::read_u64;
use crate::bytes::word16;
use crate::bytes::word32;
use crate::bytes::word64;

verus! {

/// Machine field value for x86.
pub const EM_386: u16 = 3;

/// Machine field value for ARM.
pub const EM_ARM: u16 = 40;

/// Machine field value for x86-64.
pub const EM_X86_64: u16 = 62;

/// Machine field value for ARM64.
pub const EM_AARCH64: u16 = 183;

/// Section type: program-defined contents held in the file.
pub const SHT_PROGBITS: u32 = 1;

/// Section type: a symbol table.
pub const SHT_SYMTAB: u32 = 2;

/// Section type: a string table.
pub const SHT_STRTAB: u32 = 3;

/// Section type: zero-filled at load time, no bytes in the file.
pub const SHT_NOBITS: u32 = 8;

/// Section flag: writable when loaded.
pub const SHF_WRITE: u64 = 1;

/// Section flag: occupies memory when loaded.
pub const SHF_ALLOC: u64 = 2;

/// Section flag: contains executable instructions.
pub const SHF_EXECINSTR: u64 = 4;

/// Program-header type: a loadable segment.
pub const PT_LOAD: u32 = 1;

/// First reserved section index; indexes at or above it name no section.
pub const SHN_LORESERVE: u16 = 0xff00;

/// Symbol type: a data object.
pub const STT_OBJECT: u8 = 1;

/// Symbol type: executable code.
pub const STT_FUNC: u8 = 2;

/// Symbol type: a section.
pub const STT_SECTION: u8 = 3;

/// Symbol type: a source-file name.
pub const STT_FILE: u8 = 4;

/// Symbol type: an uninitialized common block.
pub const STT_COMMON: u8 = 5;

/// Symbol type: a thread-local storage entity.
pub const STT_TLS: u8 = 6;

/// The buffer starts with the ELF magic.
pub open spec fn is_elf_magic(s: Seq<u8>) -> bool {
    s.len() >= 4 && s[0] == 0x7f && s[1] == 0x45 && s[2] == 0x4c && s[3] == 0x46
}

/// The class byte declares 64-bit field widths.
pub open spec fn elf_is64(s: Seq<u8>) -> bool {
    s[4] == 2
}

/// The data byte declares little-endian multi-byte fields.
pub open spec fn elf_le(s: Seq<u8>) -> bool {
    s[5] == 1
}

/// Size of the ELF header for the declared class.
pub open spec fn elf_ehsize(s: Seq<u8>) -> int {
    if elf_is64(s) {
        64
    } else {
        52
    }
}

/// A class-dependent file-offset field: eight bytes in 64-bit files, four
/// in 32-bit ones.
pub open spec fn elf_word(s: Seq<u8>, i: int) -> int {
    if elf_is64(s) {
        word64(s, i, elf_le(s))
    } else {
        word32(s, i, elf_le(s))
    }
}

/// The header's machine field.
pub open spec fn elf_machine_field(s: Seq<u8>) -> int {
    word16(s, 18, elf_le(s))
}

/// File offset of the program-header table.
pub open spec fn elf_phoff(s: Seq<u8>) -> int {
    elf_word(s, if elf_is64(s) { 32 } else { 28 })
}

/// File offset of the section-header table.
pub open spec fn elf_shoff(s: Seq<u8>) -> int {
    elf_word(s, if elf_is64(s) { 40 } else { 32 })
}

/// Declared size of one program-header entry.
pub open spec fn elf_phentsize(s: Seq<u8>) -> int {
    word16(s, if elf_is64(s) { 54 } else { 42 }, elf_le(s))
}

/// Number of program-header entries.
pub open spec fn elf_phnum(s: Seq<u8>) -> int {
    word16(s, if elf_is64(s) { 56 } else { 44 }, elf_le(s))
}

/// Declared size of one section-header entry.
pub open spec fn elf_shentsize(s: Seq<u8>) -> int {
    word16(s, if elf_is64(s) { 58 } else { 46 }, elf_le(s))
}

/// Number of section-header entries.
pub open spec fn elf_shnum(s: Seq<u8>) -> int {
    word16(s, if elf_is64(s) { 60 } else { 48 }, elf_le(s))
}

/// Section index of the section-name string table.
pub open spec fn elf_shstrndx(s: Seq<u8>) -> int {
    word16(s, if elf_is64(s) { 62 } else { 50 }, elf_le(s))
}

/// The entry size the declared class prescribes for section headers.
pub open spec fn elf_sh_entsize_expected(s: Seq<u8>) -> int {
    if elf_is64(s) {
        64
    } else {
        40
    }
}

/// The entry size the declared class prescribes for program headers.
pub open spec fn elf_ph_entsize_expected(s: Seq<u8>) -> int {
    if elf_is64(s) {
        56
    } else {
        32
    }
}

/// Magic, class, data and entry-size fields are valid and the whole header
/// is present.
pub open spec fn elf_header_ok(s: Seq<u8>) -> bool {
    &&& is_elf_magic(s)
    &&& s.len() >= 6
    &&& (s[4] == 1 || s[4] == 2)
    &&& (s[5] == 1 || s[5] == 2)
    &&& s.len() >= elf_ehsize(s)
    &&& (elf_shnum(s) == 0 || elf_shentsize(s) == elf_sh_entsize_expected(s))
    &&& (elf_phnum(s) == 0 || elf_phentsize(s) == elf_ph_entsize_expected(s))
}

/// File offset of section-header entry `i`.
pub open spec fn elf_sh_entry(s: Seq<u8>, i: int) -> int {
    elf_shoff(s) + i * elf_sh_entsize_expected(s)
}

/// The whole section-header table lies within the buffer.
pub open spec fn elf_sh_table_ok(s: Seq<u8>) -> bool {
    elf_shnum(s) == 0 || elf_shoff(s) + elf_shnum(s) * elf_sh_entsize_expected(s) <= s.len()
}

/// The name-table offset of section `i`'s name.
pub open spec fn elf_sh_name(s: Seq<u8>, i: int) -> int {
    word32(s, elf_sh_entry(s, i), elf_le(s))
}

/// The type field of section `i`.
pub open spec fn elf_sh_type(s: Seq<u8>, i: int) -> int {
    word32(s, elf_sh_entry(s, i) + 4, elf_le(s))
}

/// The flags field of section `i`.
pub open spec fn elf_sh_flags(s: Seq<u8>, i: int) -> int {
    elf_word(s, elf_sh_entry(s, i) + 8)
}

/// The virtual address of section `i`.
pub open spec fn elf_sh_addr(s: Seq<u8>, i: int) -> int {
    if elf_is64(s) {
        word64(s, elf_sh_entry(s, i) + 16, elf_le(s))
    } else {
        word32(s, elf_sh_entry(s, i) + 12, elf_le(s))
    }
}

/// The file offset of section `i`'s contents.
pub open spec fn elf_sh_offset(s: Seq<u8>, i: int) -> int {
    if elf_is64(s) {
        word64(s, elf_sh_entry(s, i) + 24, elf_le(s))
    } else {
        word32(s, elf_sh_entry(s, i) + 16, elf_le(s))
    }
}

/// The size of section `i`'s contents.
pub open spec fn elf_sh_size(s: Seq<u8>, i: int) -> int {
    if elf_is64(s) {
        word64(s, elf_sh_entry(s, i) + 32, elf_le(s))
    } else {
        word32(s, elf_sh_entry(s, i) + 20, elf_le(s))
    }
}

/// The link field of section `i`.
pub open spec fn elf_sh_link(s: Seq<u8>, i: int) -> int {
    word32(s, elf_sh_entry(s, i) + (if elf_is64(s) { 40int } else { 24int }), elf_le(s))
}

/// Section `i`'s file-backed contents lie within the buffer; `SHT_NOBITS`
/// sections carry no file-backed bytes at all.
pub open spec fn elf_section_data_ok(s: Seq<u8>, i: int) -> bool {
    elf_sh_type(s, i) == SHT_NOBITS || elf_sh_offset(s, i) + elf_sh_size(s, i) <= s.len()
}

/// File offset of program-header entry `i`.
pub open spec fn elf_ph_entry(s: Seq<u8>, i: int) -> int {
    elf_phoff(s) + i * elf_ph_entsize_expected(s)
}

/// The whole program-header table lies within the buffer.
pub open spec fn elf_ph_table_ok(s: Seq<u8>) -> bool {
    elf_phnum(s) == 0 || elf_phoff(s) + elf_phnum(s) * elf_ph_entsize_expected(s) <= s.len()
}

/// The type field of program header `i`.
pub open spec fn elf_p_type(s: Seq<u8>, i: int) -> int {
    word32(s, elf_ph_entry(s, i), elf_le(s))
}

/// The file offset of program header `i`'s contents.
pub open spec fn elf_p_offset(s: Seq<u8>, i: int) -> int {
    if elf_is64(s) {
        word64(s, elf_ph_entry(s, i) + 8, elf_le(s))
    } else {
        word32(s, elf_ph_entry(s, i) + 4, elf_le(s))
    }
}

/// The virtual address of program header `i`.
pub open spec fn elf_p_vaddr(s: Seq<u8>, i: int) -> int {
    if elf_is64(s) {
        word64(s, elf_ph_entry(s, i) + 16, elf_le(s))
    } else {
        word32(s, elf_ph_entry(s, i) + 8, elf_le(s))
    }
}

/// The file-backed size of program header `i`.
pub open spec fn elf_p_filesz(s: Seq<u8>, i: int) -> int {
    if elf_is64(s) {
        word64(s, elf_ph_entry(s, i) + 32, elf_le(s))
    } else {
        word32(s, elf_ph_entry(s, i) + 16, elf_le(s))
    }
}

/// The in-memory size of program header `i`.
pub open spec fn elf_p_memsz(s: Seq<u8>, i: int) -> int {
    if elf_is64(s) {
        word64(s, elf_ph_entry(s, i) + 40, elf_le(s))
    } else {
        word32(s, elf_ph_entry(s, i) + 20, elf_le(s))
    }
}

/// A loadable program header's file-backed range lies within the buffer.
pub open spec fn elf_segment_ok(s: Seq<u8>, i: int) -> bool {
    elf_p_type(s, i) != PT_LOAD || elf_p_offset(s, i) + elf_p_filesz(s, i) <= s.len()
}

/// A buffer is an acceptable ELF image.
pub open spec fn elf_valid(s: Seq<u8>) -> bool {
    &&& elf_header_ok(s)
    &&& elf_sh_table_ok(s)
    &&& elf_ph_table_ok(s)
    &&& forall|i: int| 0 <= i < elf_shnum(s) ==> #[trigger] elf_section_data_ok(s, i)
    &&& forall|i: int| 0 <= i < elf_phnum(s) ==> #[trigger] elf_segment_ok(s, i)
}

/// The error an unacceptable ELF buffer decodes to.
pub open spec fn elf_decode_err(s: Seq<u8>) -> DecodeError {
    if elf_header_ok(s) {
        DecodeError::TruncatedOrOutOfBoundsTable
    } else {
        DecodeError::MalformedHeader
    }
}

/// The header names a usable section-name string table.
pub open spec fn elf_has_shstr(s: Seq<u8>) -> bool {
    0 < elf_shstrndx(s) < elf_shnum(s) && elf_sh_type(s, elf_shstrndx(s)) == SHT_STRTAB
}

/// File offset of the section-name string table.
pub open spec fn elf_shstr_lo(s: Seq<u8>) -> int {
    elf_sh_offset(s, elf_shstrndx(s))
}

/// Size of the section-name string table.
pub open spec fn elf_shstr_size(s: Seq<u8>) -> int {
    elf_sh_size(s, elf_shstrndx(s))
}

/// The machine type denoted by an ELF machine field value.
pub open spec fn spec_elf_machine(m: int) -> Machine {
    if m == EM_386 {
        Machine::X86
    } else if m == EM_ARM {
        Machine::Arm
    } else if m == EM_X86_64 {
        Machine::X86_64
    } else if m == EM_AARCH64 {
        Machine::Arm64
    } else {
        Machine::Other
    }
}

/// The classification rule for ELF sections, a pure function of the type
/// and flags fields, in this fixed precedence order: `SHT_NOBITS` means
/// uninitialized data; `SHT_PROGBITS` without the alloc flag is unknown,
/// with alloc and execinstr it is text, with alloc and write it is data,
/// and with alloc alone it is read-only data; every other type is unknown.
pub open spec fn spec_elf_section_kind(typ: u32, flags: u64) -> SectionKind {
    if typ == SHT_NOBITS {
        SectionKind::UninitializedData
    } else if typ == SHT_PROGBITS {
        if flags & SHF_ALLOC == 0 {
            SectionKind::Unknown
        } else if flags & SHF_EXECINSTR != 0 {
            SectionKind::Text
        } else if flags & SHF_WRITE != 0 {
            SectionKind::Data
        } else {
            SectionKind::ReadOnlyData
        }
    } else {
        SectionKind::Unknown
    }
}

/// Classify an ELF section from its type and flags fields.
pub fn elf_section_kind(typ: u32, flags: u64) -> (r: SectionKind)
    ensures
        r == spec_elf_section_kind(typ, flags),
{
    if typ == SHT_NOBITS {
        SectionKind::UninitializedData
    } else if typ == SHT_PROGBITS {
        if flags & SHF_ALLOC == 0 {
            SectionKind::Unknown
        } else if flags & SHF_EXECINSTR != 0 {
            SectionKind::Text
        } else if flags & SHF_WRITE != 0 {
            SectionKind::Data
        } else {
            SectionKind::ReadOnlyData
        }
    } else {
        SectionKind::Unknown
    }
}

/// The classification rule is deterministic: equal type and flags fields
/// always classify to the same kind.
pub proof fn lemma_elf_section_kind_deterministic(t1: u32, f1: u64, t2: u32, f2: u64)
    requires
        t1 == t2,
        f1 == f2,
    ensures
        spec_elf_section_kind(t1, f1) == spec_elf_section_kind(t2, f2),
{
}

/// An unrecognized machine field value maps to `Machine::Other`: an
/// unknown architecture is a representable state, never a failure.
pub proof fn lemma_elf_unknown_machine_is_other(m: int)
    requires
        m != EM_386,
        m != EM_ARM,
        m != EM_X86_64,
        m != EM_AARCH64,
    ensures
        spec_elf_machine(m) == Machine::Other,
{
}

/// A symbol whose section index denotes no defined section — the
/// undefined index, a reserved index, or one past the section table —
/// carries no section kind, so it reports itself undefined.
pub proof fn lemma_undefined_symbol_has_no_section_kind(
    s: Seq<u8>,
    base: int,
    secs: Seq<SectionRec>,
    has_str: bool,
    strlo: int,
    strsize: int,
    sym: Symbol,
)
    requires
        elf_sym_rec_ok(s, base, secs, has_str, strlo, strsize, sym),
        elf_sym_shndx(s, base) == 0 || elf_sym_shndx(s, base) >= SHN_LORESERVE || elf_sym_shndx(
            s,
            base,
        ) >= secs.len(),
    ensures
        sym.section_kind is None,
{
}

/// The symbol kind denoted by the type nibble of a symbol's info field.
pub open spec fn spec_elf_symbol_kind(typ: u8) -> SymbolKind {
    if typ == STT_OBJECT {
        SymbolKind::Data
    } else if typ == STT_FUNC {
        SymbolKind::Text
    } else if typ == STT_SECTION {
        SymbolKind::Section
    } else if typ == STT_FILE {
        SymbolKind::File
    } else if typ == STT_COMMON {
        SymbolKind::Common
    } else if typ == STT_TLS {
        SymbolKind::Tls
    } else {
        SymbolKind::Unknown
    }
}

/// Classify an ELF symbol from the type nibble of its info field.
pub fn elf_symbol_kind(typ: u8) -> (r: SymbolKind)
    ensures
        r == spec_elf_symbol_kind(typ),
{
    if typ == STT_OBJECT {
        SymbolKind::Data
    } else if typ == STT_FUNC {
        SymbolKind::Text
    } else if typ == STT_SECTION {
        SymbolKind::Section
    } else if typ == STT_FILE {
        SymbolKind::File
    } else if typ == STT_COMMON {
        SymbolKind::Common
    } else if typ == STT_TLS {
        SymbolKind::Tls
    } else {
        SymbolKind::Unknown
    }
}

/// The resolved name of section `i`: a NUL-terminated string in the
/// section-name string table, absent when that table is unusable or the
/// name offset lies beyond it.
pub open spec fn elf_section_name(s: Seq<u8>, i: int) -> Option<Seq<u8>> {
    if elf_has_shstr(s) && elf_sh_name(s, i) < elf_shstr_size(s) {
        Some(cstr(s, elf_shstr_lo(s) + elf_sh_name(s, i), elf_shstr_lo(s) + elf_shstr_size(s)))
    } else {
        None
    }
}

/// The record `rec` holds exactly what section-header entry `i` declares.
pub open spec fn elf_section_rec_ok(s: Seq<u8>, i: int, rec: SectionRec) -> bool {
    let nobits = elf_sh_type(s, i) == SHT_NOBITS;
    &&& (match rec.name {
        Some(nm) => elf_section_name(s, i) matches Some(sn) && nm@ == sn,
        None => elf_section_name(s, i) is None,
    })
    &&& rec.segment_name is None
    &&& rec.address == elf_sh_addr(s, i)
    &&& rec.size == elf_sh_size(s, i)
    &&& rec.offset == (if nobits {
        0int
    } else {
        elf_sh_offset(s, i)
    })
    &&& rec.file_size == (if nobits {
        0int
    } else {
        elf_sh_size(s, i)
    })
    &&& rec.kind == spec_elf_section_kind(elf_sh_type(s, i) as u32, elf_sh_flags(s, i) as u64)
}

/// The record program header `i` maps to: no name, the virtual address and
/// in-memory size, and the file-backed byte range.
pub open spec fn elf_segment_rec(s: Seq<u8>, i: int) -> SegmentRec {
    SegmentRec {
        name: None,
        address: elf_p_vaddr(s, i) as u64,
        size: elf_p_memsz(s, i) as u64,
        offset: elf_p_offset(s, i) as usize,
        file_size: elf_p_filesz(s, i) as usize,
    }
}

/// The loadable segments among the first `n` program headers, in table
/// order.
pub open spec fn elf_segments_spec(s: Seq<u8>, n: int) -> Seq<SegmentRec>
    decreases n,
{
    if n <= 0 {
        Seq::empty()
    } else if elf_p_type(s, n - 1) == PT_LOAD {
        elf_segments_spec(s, n - 1).push(elf_segment_rec(s, n - 1))
    } else {
        elf_segments_spec(s, n - 1)
    }
}

/// The symbol `sym` holds exactly what the symbol-table entry at file
/// offset `base` declares, with names resolved against the string table
/// `[strlo, strlo + strsize)` when `has_str` and the defining section's
/// kind resolved against `secs`.
pub open spec fn elf_sym_rec_ok(
    s: Seq<u8>,
    base: int,
    secs: Seq<SectionRec>,
    has_str: bool,
    strlo: int,
    strsize: int,
    sym: Symbol,
) -> bool {
    let shndx = elf_sym_shndx(s, base);
    let info = elf_sym_info(s, base);
    &&& sym.kind == spec_elf_symbol_kind((info & 0x0f) as u8)
    &&& sym.global == ((info >> 4) != 0)
    &&& sym.section == shndx
    &&& (if shndx == 0 || shndx >= SHN_LORESERVE || shndx >= secs.len() {
        sym.section_kind is None
    } else {
        sym.section_kind == Some(secs[shndx].kind)
    })
    &&& (match sym.name {
        Some(nm) => has_str && elf_sym_name_off(s, base) < strsize && nm@ == cstr(
            s,
            strlo + elf_sym_name_off(s, base),
            strlo + strsize,
        ),
        None => !(has_str && elf_sym_name_off(s, base) < strsize),
    })
    &&& sym.address == elf_sym_value(s, base)
    &&& sym.size == elf_sym_size(s, base)
}

/// The name-table offset of the symbol entry at `base`.
pub open spec fn elf_sym_name_off(s: Seq<u8>, base: int) -> int {
    word32(s, base, elf_le(s))
}

/// The info field of the symbol entry at `base`: binding in the high
/// nibble, type in the low one.
pub open spec fn elf_sym_info(s: Seq<u8>, base: int) -> u8 {
    if elf_is64(s) {
        s[base + 4]
    } else {
        s[base + 12]
    }
}

/// The section index of the symbol entry at `base`.
pub open spec fn elf_sym_shndx(s: Seq<u8>, base: int) -> int {
    word16(s, base + (if elf_is64(s) { 6int } else { 14int }), elf_le(s))
}

/// The value (address) of the symbol entry at `base`.
pub open spec fn elf_sym_value(s: Seq<u8>, base: int) -> int {
    if elf_is64(s) {
        word64(s, base + 8, elf_le(s))
    } else {
        word32(s, base + 4, elf_le(s))
    }
}

/// The size of the symbol entry at `base`.
pub open spec fn elf_sym_size(s: Seq<u8>, base: int) -> int {
    if elf_is64(s) {
        word64(s, base + 16, elf_le(s))
    } else {
        word32(s, base + 8, elf_le(s))
    }
}

/// Size of one symbol-table entry for the declared class.
pub open spec fn elf_sym_stride(s: Seq<u8>) -> int {
    if elf_is64(s) {
        24
    } else {
        16
    }
}

/// Entry `idx` of a table of `num` entries of size `ent` at offset `off`
/// lies within a buffer of length `len` that holds the whole table.
pub proof fn lemma_entry_in_table(off: int, idx: int, ent: int, num: int, len: int)
    requires
        0 <= idx < num,
        0 < ent,
        0 <= off,
        off + num * ent <= len,
    ensures
        0 <= idx * ent,
        off + idx * ent + ent <= len,
{
    assert(0 <= idx * ent && idx * ent + ent <= num * ent) by (nonlinear_arith)
        requires
            0 <= idx,
            idx < num,
            0 < ent,
    ;
}

/// Decode the symbol table held by section `ix`, resolving names against
/// its linked string table and each symbol's defining section against the
/// decoded section records.
#[verifier::rlimit(100)]
fn decode_symtab(
    data: &[u8],
    shoff_us: usize,
    shnum_us: usize,
    sh_ent_exp: u16,
    is64: bool,
    le: bool,
    ix: usize,
    sections: &Vec<SectionRec>,
) -> (symbols: Vec<Symbol>)
    requires
        is64 == elf_is64(data@),
        le == elf_le(data@),
        elf_header_ok(data@),
        shnum_us == elf_shnum(data@),
        sh_ent_exp == elf_sh_entsize_expected(data@),
        shnum_us != 0 ==> shoff_us == elf_shoff(data@),
        shoff_us + shnum_us * sh_ent_exp <= data@.len(),
        0 <= ix < shnum_us,
        elf_sh_type(data@, ix as int) == SHT_SYMTAB,
        forall|k: int| 0 <= k < shnum_us ==> #[trigger] elf_section_data_ok(data@, k),
        sections@.len() == shnum_us,
        forall|m: int|
            0 <= m < shnum_us ==> elf_section_rec_ok(data@, m, #[trigger] sections@[m]),
    ensures
        symbols@.len() == elf_sh_size(data@, ix as int) / elf_sym_stride(data@),
        forall|j: int|
            0 <= j < symbols@.len() ==> elf_sym_rec_ok(
                data@,
                elf_sh_offset(data@, ix as int) + j * elf_sym_stride(data@),
                sections@,
                0 <= elf_sh_link(data@, ix as int) < elf_shnum(data@) && elf_sh_type(
                    data@,
                    elf_sh_link(data@, ix as int),
                ) == SHT_STRTAB,
                elf_sh_offset(data@, elf_sh_link(data@, ix as int)),
                elf_sh_size(data@, elf_sh_link(data@, ix as int)),
                #[trigger] symbols@[j],
            ),
{
    let len = data.len();
    let mut symbols: Vec<Symbol> = Vec::new();

    proof {
        lemma_entry_in_table(
            shoff_us as int,
            ix as int,
            sh_ent_exp as int,
            shnum_us as int,
            len as int,
        );
    }
    let e = shoff_us + ix * (sh_ent_exp as usize);
    proof {
        assert(e == elf_sh_entry(data@, ix as int));
        assert(e + sh_ent_exp <= len);
        assert(elf_section_data_ok(data@, ix as int));
    }
    let sym_off_w: u64 = if is64 {
        read_u64(data, e + 24, le)
    } else {
        read_u32(data, e + 16, le) as u64
    };
    let sym_size_w: u64 = if is64 {
        read_u64(data, e + 32, le)
    } else {
        read_u32(data, e + 20, le) as u64
    };
    let link = read_u32(data, e + (if is64 { 40 } else { 24 }), le);
    proof {
        assert(sym_off_w + sym_size_w <= len);
    }
    let sym_lo = sym_off_w as usize;
    let sym_sz = sym_size_w as usize;
    let stride: usize = if is64 {
        24
    } else {
        16
    };
    let cnt = sym_sz / stride;
    proof {
        lemma_fundamental_div_mod(sym_sz as int, stride as int);
        assert(cnt * stride <= sym_sz);
    }
    // Resolve the linked string table.
    let mut has_str = false;
    let mut str_lo: usize = 0;
    let mut str_size: usize = 0;
    if (link as usize) < shnum_us {
        proof {
            lemma_entry_in_table(
                shoff_us as int,
                link as int,
                sh_ent_exp as int,
                shnum_us as int,
                len as int,
            );
        }
        let e2 = shoff_us + (link as usize) * (sh_ent_exp as usize);
        proof {
            assert(e2 == elf_sh_entry(data@, link as int));
            assert(e2 + sh_ent_exp <= len);
        }
        let t2 = read_u32(data, e2 + 4, le);
        if t2 == SHT_STRTAB {
            let off2: u64 = if is64 {
                read_u64(data, e2 + 24, le)
            } else {
                read_u32(data, e2 + 16, le) as u64
            };
            let size2: u64 = if is64 {
                read_u64(data, e2 + 32, le)
            } else {
                read_u32(data, e2 + 20, le) as u64
            };
            proof {
                assert(elf_section_data_ok(data@, link as int));
                assert(off2 + size2 <= len);
            }
            has_str = true;
            str_lo = off2 as usize;
            str_size = size2 as usize;
        }
    }
    proof {
        assert(has_str == (0 <= link < elf_shnum(data@) && elf_sh_type(
            data@,
            link as int,
        ) == SHT_STRTAB));
        assert(has_str ==> str_lo == elf_sh_offset(data@, link as int) && str_size
            == elf_sh_size(data@, link as int) && str_lo + str_size <= len);
    }
    let mut k: usize = 0;
    while k < cnt
        invariant
            len == data@.len(),
            is64 == elf_is64(data@),
            le == elf_le(data@),
            elf_header_ok(data@),
            shnum_us == elf_shnum(data@),
            sections@.len() == shnum_us,
            forall|m: int|
                0 <= m < shnum_us ==> elf_section_rec_ok(
                    data@,
                    m,
                    #[trigger] sections@[m],
                ),
            sym_lo == elf_sh_offset(data@, ix as int),
            sym_sz == elf_sh_size(data@, ix as int),
            stride == elf_sym_stride(data@),
            cnt == elf_sh_size(data@, ix as int) / elf_sym_stride(data@),
            cnt * stride <= sym_sz,
            sym_lo + sym_sz <= len,
            has_str == (0 <= link < elf_shnum(data@) && elf_sh_type(data@, link as int)
                == SHT_STRTAB),
            has_str ==> str_lo == elf_sh_offset(data@, link as int) && str_size
                == elf_sh_size(data@, link as int) && str_lo + str_size <= len,
            0 <= k <= cnt,
            symbols@.len() == k,
            forall|m: int|
                0 <= m < k ==> elf_sym_rec_ok(
                    data@,
                    sym_lo + m * stride,
                    sections@,
                    has_str,
                    str_lo as int,
                    str_size as int,
                    #[trigger] symbols@[m],
                ),
        decreases cnt - k,
    {
        let base = sym_lo + k * stride;
        proof {
            assert((k + 1) * stride <= cnt * stride) by (nonlinear_arith)
                requires
                    k + 1 <= cnt,
                    stride > 0,
            ;
            assert(base + stride <= len);
        }
        let name_off = read_u32(data, base, le);
        let info: u8 = if is64 {
            *slice_index_get(data, base + 4)
        } else {
            *slice_index_get(data, base + 12)
        };
        let shndx = read_u16(data, base + (if is64 { 6 } else { 14 }), le);
        let value: u64 = if is64 {
            read_u64(data, base + 8, le)
        } else {
            read_u32(data, base + 4, le) as u64
        };
        let size: u64 = if is64 {
            read_u64(data, base + 16, le)
        } else {
            read_u32(data, base + 8, le) as u64
        };
        let kind = elf_symbol_kind(info & 0x0f);
        let global = (info >> 4) != 0;
        let section_kind: Option<SectionKind> = if shndx == 0 || shndx >= SHN_LORESERVE
            || (shndx as usize) >= shnum_us {
            None
        } else {
            Some(sections[shndx as usize].kind)
        };
        let name: Option<Vec<u8>> = if has_str && (name_off as u64) < (
        str_size as u64) {
            Some(read_cstr(data, str_lo + name_off as usize, str_lo + str_size))
        } else {
            None
        };
        let sym = Symbol {
            kind,
            section: shndx as usize,
            section_kind,
            global,
            name,
            address: value,
            size,
        };
        proof {
            assert(elf_sym_rec_ok(
                data@,
                base as int,
                sections@,
                has_str,
                str_lo as int,
                str_size as int,
                sym,
            ));
        }
        symbols.push(sym);
        k = k + 1;
    }

    symbols
}

/// A decoded ELF object file.
#[derive(Debug)]
pub struct ElfFile {
    /// The header's machine field.
    pub machine_field: u16,
    /// The class byte declared 64-bit field widths.
    pub is64: bool,
    /// The data byte declared little-endian fields.
    pub little_endian: bool,
    /// One record per section-header entry, in table order.
    pub sections: Vec<SectionRec>,
    /// One record per `PT_LOAD` program header, in table order.
    pub segments: Vec<SegmentRec>,
    /// Index of the first `SHT_SYMTAB` section, when one exists.
    pub symtab_index: Option<usize>,
    /// The decoded symbol table, empty when no symbol table exists.
    pub symbols: Vec<Symbol>,
}

impl ElfFile {
    /// Every stored record stays within a buffer of length `n`.
    pub open spec fn wf(self, n: int) -> bool {
        &&& forall|i: int|
            0 <= i < self.sections@.len() ==> (#[trigger] self.sections@[i]).in_bounds(n)
        &&& forall|i: int|
            0 <= i < self.segments@.len() ==> (#[trigger] self.segments@[i]).in_bounds(n)
    }

    /// The symbol list reproduces the first symbol-table section entry by
    /// entry, or is empty because the file has no symbol-table section.
    pub open spec fn symbols_ok(self, s: Seq<u8>) -> bool {
        match self.symtab_index {
            None => {
                &&& self.symbols@.len() == 0
                &&& forall|i: int| 0 <= i < elf_shnum(s) ==> #[trigger] elf_sh_type(s, i) != SHT_SYMTAB
            },
            Some(ix) => {
                let symoff = elf_sh_offset(s, ix as int);
                let cnt = elf_sh_size(s, ix as int) / elf_sym_stride(s);
                let link = elf_sh_link(s, ix as int);
                let has_str = 0 <= link < elf_shnum(s) && elf_sh_type(s, link) == SHT_STRTAB;
                let strlo = elf_sh_offset(s, link);
                let strsize = elf_sh_size(s, link);
                &&& 0 <= ix < elf_shnum(s)
                &&& elf_sh_type(s, ix as int) == SHT_SYMTAB
                &&& forall|k: int| 0 <= k < ix ==> #[trigger] elf_sh_type(s, k) != SHT_SYMTAB
                &&& self.symbols@.len() == cnt
                &&& forall|j: int|
                    0 <= j < cnt ==> elf_sym_rec_ok(
                        s,
                        symoff + j * elf_sym_stride(s),
                        self.sections@,
                        has_str,
                        strlo,
                        strsize,
                        #[trigger] self.symbols@[j],
                    )
            },
        }
    }

    /// Everything [`parse`](ElfFile::parse) promises of a decoded file.
    pub open spec fn parse_ok(self, s: Seq<u8>) -> bool {
        &&& elf_valid(s)
        &&& self.wf(s.len() as int)
        &&& self.is64 == elf_is64(s)
        &&& self.little_endian == elf_le(s)
        &&& self.machine_field == elf_machine_field(s)
        &&& self.sections@.len() == elf_shnum(s)
        &&& forall|i: int|
            0 <= i < self.sections@.len() ==> elf_section_rec_ok(s, i, #[trigger] self.sections@[i])
        &&& self.segments@ == elf_segments_spec(s, elf_phnum(s))
        &&& self.symbols_ok(s)
    }

    /// Machine type, resolved from the header's machine field.
    /// Unrecognized values map to `Machine::Other`, never to an error.
    pub fn machine(&self) -> (r: Machine)
        ensures
            r == spec_elf_machine(self.machine_field as int),
    {
        if self.machine_field == EM_386 {
            Machine::X86
        } else if self.machine_field == EM_ARM {
            Machine::Arm
        } else if self.machine_field == EM_X86_64 {
            Machine::X86_64
        } else if self.machine_field == EM_AARCH64 {
            Machine::Arm64
        } else {
            Machine::Other
        }
    }

    /// Whether the data byte declared little-endian fields.
    pub fn is_little_endian(&self) -> (r: bool)
        ensures
            r == self.little_endian,
    {
        self.little_endian
    }

    /// Parse the raw ELF file data. Succeeds exactly on buffers that
    /// [`elf_valid`] accepts; a failure distinguishes a malformed header
    /// from a table that runs out of the buffer.
    #[verifier::rlimit(100)]
    pub fn parse(data: &[u8]) -> (r: Result<ElfFile, DecodeError>)
        ensures
            match r {
                Ok(f) => f.parse_ok(data@),
                Err(e) => !elf_valid(data@) && e == elf_decode_err(data@),
            },
    {
        let len = data.len();
        if len < 6 {
            return Err(DecodeError::MalformedHeader);
        }
        if *slice_index_get(data, 0) != 0x7f || *slice_index_get(data, 1) != 0x45
            || *slice_index_get(data, 2) != 0x4c || *slice_index_get(data, 3) != 0x46 {
            return Err(DecodeError::MalformedHeader);
        }
        let class = *slice_index_get(data, 4);
        let encoding = *slice_index_get(data, 5);
        if !(class == 1 || class == 2) || !(encoding == 1 || encoding == 2) {
            return Err(DecodeError::MalformedHeader);
        }
        let is64 = class == 2;
        let le = encoding == 1;
        let ehsize: usize = if is64 {
            64
        } else {
            52
        };
        if len < ehsize {
            return Err(DecodeError::MalformedHeader);
        }
        proof {
            assert(is64 == elf_is64(data@));
            assert(le == elf_le(data@));
        }
        let machine_field = read_u16(data, 18, le);
        let phoff: u64 = if is64 {
            read_u64(data, 32, le)
        } else {
            read_u32(data, 28, le) as u64
        };
        let shoff: u64 = if is64 {
            read_u64(data, 40, le)
        } else {
            read_u32(data, 32, le) as u64
        };
        let phentsize = read_u16(data, if is64 { 54 } else { 42 }, le);
        let phnum = read_u16(data, if is64 { 56 } else { 44 }, le);
        let shentsize = read_u16(data, if is64 { 58 } else { 46 }, le);
        let shnum = read_u16(data, if is64 { 60 } else { 48 }, le);
        let shstrndx = read_u16(data, if is64 { 62 } else { 50 }, le);
        let sh_ent_exp: u16 = if is64 {
            64
        } else {
            40
        };
        let ph_ent_exp: u16 = if is64 {
            56
        } else {
            32
        };
        if shnum != 0 && shentsize != sh_ent_exp {
            return Err(DecodeError::MalformedHeader);
        }
        if phnum != 0 && phentsize != ph_ent_exp {
            return Err(DecodeError::MalformedHeader);
        }
        proof {
            assert(elf_header_ok(data@));
        }
        if shnum != 0 {
            if !(shoff <= len as u64) {
                return Err(DecodeError::TruncatedOrOutOfBoundsTable);
            }
            if !((shnum as u64) * (sh_ent_exp as u64) <= len as u64 - shoff) {
                return Err(DecodeError::TruncatedOrOutOfBoundsTable);
            }
        }
        if phnum != 0 {
            if !(phoff <= len as u64) {
                return Err(DecodeError::TruncatedOrOutOfBoundsTable);
            }
            if !((phnum as u64) * (ph_ent_exp as u64) <= len as u64 - phoff) {
                return Err(DecodeError::TruncatedOrOutOfBoundsTable);
            }
        }
        proof {
            assert(elf_sh_table_ok(data@));
            assert(elf_ph_table_ok(data@));
        }
        let shoff_us: usize = if shnum != 0 {
            shoff as usize
        } else {
            0
        };
        let shnum_us = shnum as usize;
        proof {
            assert(shnum != 0 ==> shoff_us == elf_shoff(data@));
        }
        // Resolve the section-name string table before decoding sections.
        let mut has_shstr = false;
        let mut shstr_lo: usize = 0;
        let mut shstr_size: usize = 0;
        if shstrndx != 0 && (shstrndx as usize) < shnum_us {
            proof {
                lemma_entry_in_table(
                    shoff_us as int,
                    shstrndx as int,
                    sh_ent_exp as int,
                    shnum as int,
                    len as int,
                );
            }
            let e = shoff_us + (shstrndx as usize) * (sh_ent_exp as usize);
            proof {
                assert(e == elf_sh_entry(data@, shstrndx as int));
                assert(e + sh_ent_exp <= len);
            }
            let typ = read_u32(data, e + 4, le);
            if typ == SHT_STRTAB {
                let s_off: u64 = if is64 {
                    read_u64(data, e + 24, le)
                } else {
                    read_u32(data, e + 16, le) as u64
                };
                let s_size: u64 = if is64 {
                    read_u64(data, e + 32, le)
                } else {
                    read_u32(data, e + 20, le) as u64
                };
                if !(s_off <= len as u64 && s_size <= len as u64 - s_off) {
                    proof {
                        assert(!elf_section_data_ok(data@, shstrndx as int));
                    }
                    return Err(DecodeError::TruncatedOrOutOfBoundsTable);
                }
                has_shstr = true;
                shstr_lo = s_off as usize;
                shstr_size = s_size as usize;
            }
        }
        proof {
            assert(has_shstr == elf_has_shstr(data@));
            assert(has_shstr ==> shstr_lo == elf_shstr_lo(data@) && shstr_size == elf_shstr_size(
                data@,
            ) && shstr_lo + shstr_size <= len);
        }
        // Decode the section table.
        let mut sections: Vec<SectionRec> = Vec::new();
        let mut symtab_index: Option<usize> = None;
        let mut i: usize = 0;
        while i < shnum_us
            invariant
                len == data@.len(),
                is64 == elf_is64(data@),
                le == elf_le(data@),
                elf_header_ok(data@),
                elf_sh_table_ok(data@),
                elf_ph_table_ok(data@),
                shnum_us == elf_shnum(data@),
                sh_ent_exp == elf_sh_entsize_expected(data@),
                shnum_us != 0 ==> shoff_us == elf_shoff(data@),
                shoff_us + shnum_us * sh_ent_exp <= len || shnum_us == 0,
                has_shstr == elf_has_shstr(data@),
                has_shstr ==> shstr_lo == elf_shstr_lo(data@) && shstr_size == elf_shstr_size(
                    data@,
                ) && shstr_lo + shstr_size <= len,
                0 <= i <= shnum_us,
                sections@.len() == i,
                forall|k: int| 0 <= k < i ==> #[trigger] elf_section_data_ok(data@, k),
                forall|k: int|
                    0 <= k < i ==> elf_section_rec_ok(data@, k, #[trigger] sections@[k]),
                forall|k: int| 0 <= k < i ==> (#[trigger] sections@[k]).in_bounds(len as int),
                match symtab_index {
                    None => forall|k: int| 0 <= k < i ==> #[trigger] elf_sh_type(data@, k) != SHT_SYMTAB,
                    Some(ix) => 0 <= ix < i && elf_sh_type(data@, ix as int) == SHT_SYMTAB
                        && forall|k: int| 0 <= k < ix ==> #[trigger] elf_sh_type(data@, k) != SHT_SYMTAB,
                },
            decreases shnum_us - i,
        {
            proof {
                lemma_entry_in_table(
                    shoff_us as int,
                    i as int,
                    sh_ent_exp as int,
                    shnum_us as int,
                    len as int,
                );
            }
            let e = shoff_us + i * (sh_ent_exp as usize);
            proof {
                assert(e == elf_sh_entry(data@, i as int));
                assert(e + sh_ent_exp <= len);
            }
            let sh_name = read_u32(data, e, le);
            let sh_type = read_u32(data, e + 4, le);
            let sh_flags: u64 = if is64 {
                read_u64(data, e + 8, le)
            } else {
                read_u32(data, e + 8, le) as u64
            };
            let sh_addr: u64 = if is64 {
                read_u64(data, e + 16, le)
            } else {
                read_u32(data, e + 12, le) as u64
            };
            let sh_offset: u64 = if is64 {
                read_u64(data, e + 24, le)
            } else {
                read_u32(data, e + 16, le) as u64
            };
            let sh_size: u64 = if is64 {
                read_u64(data, e + 32, le)
            } else {
                read_u32(data, e + 20, le) as u64
            };
            let offset_us: usize;
            let fsize_us: usize;
            if sh_type == SHT_NOBITS {
                offset_us = 0;
                fsize_us = 0;
            } else {
                if !(sh_offset <= len as u64 && sh_size <= len as u64 - sh_offset) {
                    proof {
                        assert(!elf_section_data_ok(data@, i as int));
                    }
                    return Err(DecodeError::TruncatedOrOutOfBoundsTable);
                }
                offset_us = sh_offset as usize;
                fsize_us = sh_size as usize;
            }
            let name: Option<Vec<u8>> = if has_shstr && (sh_name as u64) < (shstr_size as u64) {
                Some(read_cstr(data, shstr_lo + sh_name as usize, shstr_lo + shstr_size))
            } else {
                None
            };
            let kind = elf_section_kind(sh_type, sh_flags);
            let rec = SectionRec {
                name,
                segment_name: None,
                address: sh_addr,
                size: sh_size,
                offset: offset_us,
                file_size: fsize_us,
                kind,
            };
            proof {
                assert(elf_section_data_ok(data@, i as int));
                assert(elf_section_rec_ok(data@, i as int, rec));
                assert(rec.in_bounds(len as int));
            }
            if sh_type == SHT_SYMTAB && symtab_index.is_none() {
                symtab_index = Some(i);
            }
            sections.push(rec);
            i = i + 1;
        }
        // Decode the loadable segments from the program-header table.
        let phnum_us = phnum as usize;
        let phoff_us: usize = if phnum != 0 {
            phoff as usize
        } else {
            0
        };
        let mut segments: Vec<SegmentRec> = Vec::new();
        let mut j: usize = 0;
        while j < phnum_us
            invariant
                len == data@.len(),
                is64 == elf_is64(data@),
                le == elf_le(data@),
                elf_header_ok(data@),
                elf_ph_table_ok(data@),
                phnum_us == elf_phnum(data@),
                ph_ent_exp == elf_ph_entsize_expected(data@),
                phnum_us != 0 ==> phoff_us == elf_phoff(data@),
                phoff_us + phnum_us * ph_ent_exp <= len || phnum_us == 0,
                0 <= j <= phnum_us,
                segments@ == elf_segments_spec(data@, j as int),
                forall|k: int| 0 <= k < j ==> #[trigger] elf_segment_ok(data@, k),
                forall|k: int| 0 <= k < segments@.len() ==> (#[trigger] segments@[k]).in_bounds(
                    len as int,
                ),
            decreases phnum_us - j,
        {
            proof {
                lemma_entry_in_table(
                    phoff_us as int,
                    j as int,
                    ph_ent_exp as int,
                    phnum_us as int,
                    len as int,
                );
            }
            let e = phoff_us + j * (ph_ent_exp as usize);
            proof {
                assert(e == elf_ph_entry(data@, j as int));
                assert(e + ph_ent_exp <= len);
            }
            let p_type = read_u32(data, e, le);
            if p_type == PT_LOAD {
                let p_offset: u64 = if is64 {
                    read_u64(data, e + 8, le)
                } else {
                    read_u32(data, e + 4, le) as u64
                };
                let p_vaddr: u64 = if is64 {
                    read_u64(data, e + 16, le)
                } else {
                    read_u32(data, e + 8, le) as u64
                };
                let p_filesz: u64 = if is64 {
                    read_u64(data, e + 32, le)
                } else {
                    read_u32(data, e + 16, le) as u64
                };
                let p_memsz: u64 = if is64 {
                    read_u64(data, e + 40, le)
                } else {
                    read_u32(data, e + 20, le) as u64
                };
                if !(p_offset <= len as u64 && p_filesz <= len as u64 - p_offset) {
                    proof {
                        assert(!elf_segment_ok(data@, j as int));
                    }
                    return Err(DecodeError::TruncatedOrOutOfBoundsTable);
                }
                let rec = SegmentRec {
                    name: None,
                    address: p_vaddr,
                    size: p_memsz,
                    offset: p_offset as usize,
                    file_size: p_filesz as usize,
                };
                proof {
                    assert(rec == elf_segment_rec(data@, j as int));
                    assert(elf_segments_spec(data@, j as int + 1) =~= segments@.push(rec));
                }
                segments.push(rec);
            } else {
                proof {
                    assert(elf_segments_spec(data@, j as int + 1) =~= segments@);
                }
            }
            j = j + 1;
        }
        // Decode the first symbol table, when one exists.
        let mut symbols: Vec<Symbol> = Vec::new();
        match symtab_index {
            None => {},
            Some(ix) => {
                symbols = decode_symtab(data, shoff_us, shnum_us, sh_ent_exp, is64, le, ix, &sections);
            },
        }
        let f = ElfFile {
            machine_field,
            is64,
            little_endian: le,
            sections,
            segments,
            symtab_index,
            symbols,
        };
        proof {
            assert(elf_valid(data@));
            assert(f.symbols_ok(data@));
        }
        Ok(f)
    }
}

} // verus!
