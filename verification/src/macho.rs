//! The Mach-O decoder.
//!
//! A thin Mach-O image starts with a four-byte magic whose stored byte
//! order and value declare the file's byte order and word size. The header
//! gives the CPU type and the size and count of the load commands that
//! follow it. Segments are `LC_SEGMENT` (or `LC_SEGMENT_64`) load commands:
//! a sixteen-byte NUL-padded segment name, the virtual address and size,
//! the file-backed byte range, and a run of section entries, each with its
//! own sixteen-byte section and segment names, address, size, file offset
//! and flags. A fat container (an archive of several images) is recognized
//! by the router but rejected here as a malformed header: it is not a
//! single object file.
//!
//! [`MachOFile::parse`] accepts a buffer exactly when [`macho_valid`]
//! holds of it: a thin magic, the whole header and load-command region
//! present, every load command well formed, and every segment's and
//! section's file-backed range within the buffer. Symbol tables are not
//! decoded for this format; the symbol list is empty.

use vstd::prelude::*;

use crate::DecodeError;
use crate::Machine;
use crate::SectionKind;
use crate::SectionRec;
use crate::SegmentRec;
use crate::Symbol;
use crate::bytes::cstr;
use crate::bytes::read_cstr;
use crate::bytes::read_u32;
use crate::bytes::read_u64;
use crate::bytes::word32;
use crate::bytes::word64;

verus! {

/// Magic of a 32-bit image in big-endian byte order, as read big-endian.
pub const MH_MAGIC: u32 = 0xfeedface;

/// Magic of a 32-bit image in little-endian byte order, as read big-endian.
pub const MH_CIGAM: u32 = 0xcefaedfe;

/// Magic of a 64-bit image in big-endian byte order, as read big-endian.
pub const MH_MAGIC_64: u32 = 0xfeedfacf;

/// Magic of a 64-bit image in little-endian byte order, as read big-endian.
pub const MH_CIGAM_64: u32 = 0xcffaedfe;

/// Magic of a fat container, as read big-endian.
pub const FAT_MAGIC: u32 = 0xcafebabe;

/// Byte-swapped magic of a fat container, as read big-endian.
pub const FAT_CIGAM: u32 = 0xbebafeca;

/// Load command: a 32-bit segment.
pub const LC_SEGMENT: u32 = 1;

/// Load command: a 64-bit segment.
pub const LC_SEGMENT_64: u32 = 0x19;

/// CPU type for x86.
pub const CPU_TYPE_X86: u32 = 7;

/// CPU type for x86-64.
pub const CPU_TYPE_X86_64: u32 = 0x01000007;

/// CPU type for ARM.
pub const CPU_TYPE_ARM: u32 = 12;

/// CPU type for ARM64.
pub const CPU_TYPE_ARM64: u32 = 0x0100000c;

/// Section type (low flag byte): regular contents.
pub const S_REGULAR: u32 = 0;

/// Section type: zero-filled on demand.
pub const S_ZEROFILL: u32 = 1;

/// Section type: literal C strings.
pub const S_CSTRING_LITERALS: u32 = 2;

/// Section type: four-byte literals.
pub const S_4BYTE_LITERALS: u32 = 3;

/// Section type: eight-byte literals.
pub const S_8BYTE_LITERALS: u32 = 4;

/// Section type: pointers to literals.
pub const S_LITERAL_POINTERS: u32 = 5;

/// Section type: zero-filled large blocks.
pub const S_GB_ZEROFILL: u32 = 0xc;

/// Section type: sixteen-byte literals.
pub const S_16BYTE_LITERALS: u32 = 0xe;

/// Section type: zero-filled thread-local storage.
pub const S_THREAD_LOCAL_ZEROFILL: u32 = 0x12;

/// Section attribute: contains only machine instructions.
pub const S_ATTR_PURE_INSTRUCTIONS: u32 = 0x80000000;

/// Section attribute: contains some machine instructions.
pub const S_ATTR_SOME_INSTRUCTIONS: u32 = 0x00000400;

/// The magic field, read in big-endian byte order.
pub open spec fn macho_magic(s: Seq<u8>) -> int {
    word32(s, 0, false)
}

/// The buffer starts with a Mach-O magic, thin or fat.
pub open spec fn is_macho_magic(s: Seq<u8>) -> bool {
    &&& s.len() >= 4
    &&& (macho_magic(s) == MH_MAGIC || macho_magic(s) == MH_CIGAM || macho_magic(s) == MH_MAGIC_64
        || macho_magic(s) == MH_CIGAM_64 || macho_magic(s) == FAT_MAGIC || macho_magic(s)
        == FAT_CIGAM)
}

/// The magic is one of the four thin-image magics.
pub open spec fn macho_thin(s: Seq<u8>) -> bool {
    macho_magic(s) == MH_MAGIC || macho_magic(s) == MH_CIGAM || macho_magic(s) == MH_MAGIC_64
        || macho_magic(s) == MH_CIGAM_64
}

/// The magic declares 64-bit field widths.
pub open spec fn macho_is64(s: Seq<u8>) -> bool {
    macho_magic(s) == MH_MAGIC_64 || macho_magic(s) == MH_CIGAM_64
}

/// The magic declares little-endian multi-byte fields.
pub open spec fn macho_le(s: Seq<u8>) -> bool {
    macho_magic(s) == MH_CIGAM || macho_magic(s) == MH_CIGAM_64
}

/// Size of the Mach-O header for the declared word size.
pub open spec fn macho_hdr_size(s: Seq<u8>) -> int {
    if macho_is64(s) {
        32
    } else {
        28
    }
}

/// The header's CPU type field.
pub open spec fn macho_cputype(s: Seq<u8>) -> int {
    word32(s, 4, macho_le(s))
}

/// The header's load-command count.
pub open spec fn macho_ncmds(s: Seq<u8>) -> int {
    word32(s, 16, macho_le(s))
}

/// The header's total load-command size.
pub open spec fn macho_sizeofcmds(s: Seq<u8>) -> int {
    word32(s, 20, macho_le(s))
}

/// A thin magic and the whole header are present.
pub open spec fn macho_header_ok(s: Seq<u8>) -> bool {
    &&& is_macho_magic(s)
    &&& macho_thin(s)
    &&& s.len() >= macho_hdr_size(s)
}

/// The segment load-command number for the declared word size.
pub open spec fn macho_seg_cmd(s: Seq<u8>) -> int {
    if macho_is64(s) {
        LC_SEGMENT_64 as int
    } else {
        LC_SEGMENT as int
    }
}

/// Size of a segment load command's fixed part.
pub open spec fn macho_seg_size(s: Seq<u8>) -> int {
    if macho_is64(s) {
        72
    } else {
        56
    }
}

/// Size of one section entry inside a segment load command.
pub open spec fn macho_sect_size(s: Seq<u8>) -> int {
    if macho_is64(s) {
        80
    } else {
        68
    }
}

/// The command number of the load command at `pos`.
pub open spec fn macho_cmd(s: Seq<u8>, pos: int) -> int {
    word32(s, pos, macho_le(s))
}

/// The declared size of the load command at `pos`.
pub open spec fn macho_cmdsize(s: Seq<u8>, pos: int) -> int {
    word32(s, pos + 4, macho_le(s))
}

/// The section count of the segment command at `pos`.
pub open spec fn macho_nsects(s: Seq<u8>, pos: int) -> int {
    word32(s, pos + (if macho_is64(s) { 64int } else { 48int }), macho_le(s))
}

/// The virtual address of the segment command at `pos`.
pub open spec fn macho_seg_vmaddr(s: Seq<u8>, pos: int) -> int {
    if macho_is64(s) {
        word64(s, pos + 24, macho_le(s))
    } else {
        word32(s, pos + 24, macho_le(s))
    }
}

/// The virtual size of the segment command at `pos`.
pub open spec fn macho_seg_vmsize(s: Seq<u8>, pos: int) -> int {
    if macho_is64(s) {
        word64(s, pos + 32, macho_le(s))
    } else {
        word32(s, pos + 28, macho_le(s))
    }
}

/// The file offset of the segment command at `pos`.
pub open spec fn macho_seg_fileoff(s: Seq<u8>, pos: int) -> int {
    if macho_is64(s) {
        word64(s, pos + 40, macho_le(s))
    } else {
        word32(s, pos + 32, macho_le(s))
    }
}

/// The file-backed size of the segment command at `pos`.
pub open spec fn macho_seg_filesize(s: Seq<u8>, pos: int) -> int {
    if macho_is64(s) {
        word64(s, pos + 48, macho_le(s))
    } else {
        word32(s, pos + 36, macho_le(s))
    }
}

/// File offset of section entry `k` of the segment command at `pos`.
pub open spec fn macho_sect_base(s: Seq<u8>, pos: int, k: int) -> int {
    pos + macho_seg_size(s) + k * macho_sect_size(s)
}

/// The virtual address of section entry `k` of the segment at `pos`.
pub open spec fn macho_sect_addr(s: Seq<u8>, pos: int, k: int) -> int {
    if macho_is64(s) {
        word64(s, macho_sect_base(s, pos, k) + 32, macho_le(s))
    } else {
        word32(s, macho_sect_base(s, pos, k) + 32, macho_le(s))
    }
}

/// The size of section entry `k` of the segment at `pos`.
pub open spec fn macho_sect_sizef(s: Seq<u8>, pos: int, k: int) -> int {
    if macho_is64(s) {
        word64(s, macho_sect_base(s, pos, k) + 40, macho_le(s))
    } else {
        word32(s, macho_sect_base(s, pos, k) + 36, macho_le(s))
    }
}

/// The file offset of section entry `k` of the segment at `pos`.
pub open spec fn macho_sect_offset(s: Seq<u8>, pos: int, k: int) -> int {
    word32(s, macho_sect_base(s, pos, k) + (if macho_is64(s) { 48int } else { 40int }), macho_le(s))
}

/// The flags of section entry `k` of the segment at `pos`.
pub open spec fn macho_sect_flags(s: Seq<u8>, pos: int, k: int) -> int {
    word32(s, macho_sect_base(s, pos, k) + (if macho_is64(s) { 64int } else { 56int }), macho_le(s))
}

/// The section type in `flags` carries no file-backed bytes.
pub open spec fn spec_macho_zerofill(flags: u32) -> bool {
    flags & 0xff == S_ZEROFILL || flags & 0xff == S_GB_ZEROFILL || flags & 0xff
        == S_THREAD_LOCAL_ZEROFILL
}

/// The classification rule for Mach-O sections, a pure function of the
/// flags field, in this fixed precedence order: a zero-fill type means
/// uninitialized data; an instructions attribute means text; a literal
/// type means read-only data; a regular type means data; anything else is
/// unknown.
pub open spec fn spec_macho_section_kind(flags: u32) -> SectionKind {
    if spec_macho_zerofill(flags) {
        SectionKind::UninitializedData
    } else if flags & (S_ATTR_PURE_INSTRUCTIONS | S_ATTR_SOME_INSTRUCTIONS) != 0 {
        SectionKind::Text
    } else if flags & 0xff == S_CSTRING_LITERALS || flags & 0xff == S_4BYTE_LITERALS || flags
        & 0xff == S_8BYTE_LITERALS || flags & 0xff == S_16BYTE_LITERALS || flags & 0xff
        == S_LITERAL_POINTERS {
        SectionKind::ReadOnlyData
    } else if flags & 0xff == S_REGULAR {
        SectionKind::Data
    } else {
        SectionKind::Unknown
    }
}

/// Classify a Mach-O section from its flags field.
pub fn macho_section_kind(flags: u32) -> (r: SectionKind)
    ensures
        r == spec_macho_section_kind(flags),
{
    let typ = flags & 0xff;
    if typ == S_ZEROFILL || typ == S_GB_ZEROFILL || typ == S_THREAD_LOCAL_ZEROFILL {
        SectionKind::UninitializedData
    } else if flags & (S_ATTR_PURE_INSTRUCTIONS | S_ATTR_SOME_INSTRUCTIONS) != 0 {
        SectionKind::Text
    } else if typ == S_CSTRING_LITERALS || typ == S_4BYTE_LITERALS || typ == S_8BYTE_LITERALS
        || typ == S_16BYTE_LITERALS || typ == S_LITERAL_POINTERS {
        SectionKind::ReadOnlyData
    } else if typ == S_REGULAR {
        SectionKind::Data
    } else {
        SectionKind::Unknown
    }
}

/// The classification rule is deterministic: equal flags always classify
/// to the same kind.
pub proof fn lemma_macho_section_kind_deterministic(a: u32, b: u32)
    requires
        a == b,
    ensures
        spec_macho_section_kind(a) == spec_macho_section_kind(b),
{
}

/// The machine type denoted by a Mach-O CPU type field.
pub open spec fn spec_macho_machine(c: int) -> Machine {
    if c == CPU_TYPE_X86 {
        Machine::X86
    } else if c == CPU_TYPE_X86_64 {
        Machine::X86_64
    } else if c == CPU_TYPE_ARM {
        Machine::Arm
    } else if c == CPU_TYPE_ARM64 {
        Machine::Arm64
    } else {
        Machine::Other
    }
}

/// An unrecognized CPU type value maps to `Machine::Other`: an unknown
/// architecture is a representable state, never a failure.
pub proof fn lemma_macho_unknown_machine_is_other(c: int)
    requires
        c != CPU_TYPE_X86,
        c != CPU_TYPE_X86_64,
        c != CPU_TYPE_ARM,
        c != CPU_TYPE_ARM64,
    ensures
        spec_macho_machine(c) == Machine::Other,
{
}

/// Section entry `k` of the segment at `pos` keeps its file-backed range
/// within the buffer; zero-fill sections carry no file-backed bytes.
pub open spec fn macho_sect_ok(s: Seq<u8>, pos: int, k: int) -> bool {
    spec_macho_zerofill(macho_sect_flags(s, pos, k) as u32) || macho_sect_offset(s, pos, k)
        + macho_sect_sizef(s, pos, k) <= s.len()
}

/// The load command at `pos` is well formed: a segment command is large
/// enough for its section entries, and its own and its sections'
/// file-backed ranges lie within the buffer. Other commands are ignored.
pub open spec fn macho_cmd_ok(s: Seq<u8>, pos: int) -> bool {
    macho_cmd(s, pos) != macho_seg_cmd(s) || {
        &&& macho_cmdsize(s, pos) >= macho_seg_size(s) + macho_nsects(s, pos) * macho_sect_size(s)
        &&& macho_seg_fileoff(s, pos) + macho_seg_filesize(s, pos) <= s.len()
        &&& forall|k: int| 0 <= k < macho_nsects(s, pos) ==> #[trigger] macho_sect_ok(s, pos, k)
    }
}

/// The `n` load commands starting at `pos` all fit in `[pos, end)` and are
/// well formed.
pub open spec fn macho_cmds_ok(s: Seq<u8>, pos: int, end: int, n: int) -> bool
    decreases n,
{
    if n <= 0 {
        true
    } else {
        &&& pos + 8 <= end
        &&& macho_cmdsize(s, pos) >= 8
        &&& pos + macho_cmdsize(s, pos) <= end
        &&& macho_cmd_ok(s, pos)
        &&& macho_cmds_ok(s, pos + macho_cmdsize(s, pos), end, n - 1)
    }
}

/// End of the load-command region.
pub open spec fn macho_cmds_end(s: Seq<u8>) -> int {
    macho_hdr_size(s) + macho_sizeofcmds(s)
}

/// A buffer is an acceptable thin Mach-O image.
pub open spec fn macho_valid(s: Seq<u8>) -> bool {
    &&& macho_header_ok(s)
    &&& macho_cmds_end(s) <= s.len()
    &&& macho_cmds_ok(s, macho_hdr_size(s), macho_cmds_end(s), macho_ncmds(s))
}

/// The error an unacceptable Mach-O buffer decodes to.
pub open spec fn macho_decode_err(s: Seq<u8>) -> DecodeError {
    if macho_header_ok(s) {
        DecodeError::TruncatedOrOutOfBoundsTable
    } else {
        DecodeError::MalformedHeader
    }
}

/// What a decoded segment record says, at the specification level: names
/// as byte sequences, numbers as unbounded integers.
pub ghost struct MachoSegView {
    /// The segment's name.
    pub name: Option<Seq<u8>>,
    /// The virtual address.
    pub address: int,
    /// The virtual size.
    pub size: int,
    /// Start of the file-backed bytes.
    pub offset: int,
    /// Number of file-backed bytes.
    pub file_size: int,
}

/// What a decoded section record says, at the specification level.
pub ghost struct MachoSectView {
    /// The section's name.
    pub name: Option<Seq<u8>>,
    /// The enclosing segment's name.
    pub segment_name: Option<Seq<u8>>,
    /// The virtual address.
    pub address: int,
    /// The declared size.
    pub size: int,
    /// Start of the file-backed bytes.
    pub offset: int,
    /// Number of file-backed bytes.
    pub file_size: int,
    /// The classified kind.
    pub kind: SectionKind,
}

/// The specification-level view of a stored segment record.
pub open spec fn macho_seg_view(rec: SegmentRec) -> MachoSegView {
    MachoSegView {
        name: (match rec.name {
            Some(v) => Some(v@),
            None => None,
        }),
        address: rec.address as int,
        size: rec.size as int,
        offset: rec.offset as int,
        file_size: rec.file_size as int,
    }
}

/// The specification-level view of a stored section record.
pub open spec fn macho_sect_view(rec: SectionRec) -> MachoSectView {
    MachoSectView {
        name: (match rec.name {
            Some(v) => Some(v@),
            None => None,
        }),
        segment_name: (match rec.segment_name {
            Some(v) => Some(v@),
            None => None,
        }),
        address: rec.address as int,
        size: rec.size as int,
        offset: rec.offset as int,
        file_size: rec.file_size as int,
        kind: rec.kind,
    }
}

/// The views of a whole sequence of stored segment records.
pub open spec fn macho_segs_view(v: Seq<SegmentRec>) -> Seq<MachoSegView> {
    v.map_values(|r: SegmentRec| macho_seg_view(r))
}

/// The views of a whole sequence of stored section records.
pub open spec fn macho_sects_view(v: Seq<SectionRec>) -> Seq<MachoSectView> {
    v.map_values(|r: SectionRec| macho_sect_view(r))
}

/// The record the segment command at `pos` maps to.
pub open spec fn macho_segment_rec(s: Seq<u8>, pos: int) -> MachoSegView {
    MachoSegView {
        name: Some(cstr(s, pos + 8, pos + 24)),
        address: macho_seg_vmaddr(s, pos),
        size: macho_seg_vmsize(s, pos),
        offset: macho_seg_fileoff(s, pos),
        file_size: macho_seg_filesize(s, pos),
    }
}

/// The record section entry `k` of the segment at `pos` maps to.
pub open spec fn macho_section_rec(s: Seq<u8>, pos: int, k: int) -> MachoSectView {
    let base = macho_sect_base(s, pos, k);
    let zf = spec_macho_zerofill(macho_sect_flags(s, pos, k) as u32);
    MachoSectView {
        name: Some(cstr(s, base, base + 16)),
        segment_name: Some(cstr(s, base + 16, base + 32)),
        address: macho_sect_addr(s, pos, k),
        size: macho_sect_sizef(s, pos, k),
        offset: if zf {
            0
        } else {
            macho_sect_offset(s, pos, k)
        },
        file_size: if zf {
            0
        } else {
            macho_sect_sizef(s, pos, k)
        },
        kind: spec_macho_section_kind(macho_sect_flags(s, pos, k) as u32),
    }
}

/// The section records of the first `k` section entries of the segment at
/// `pos`.
pub open spec fn macho_seg_sections_prefix(s: Seq<u8>, pos: int, k: int) -> Seq<MachoSectView> {
    Seq::new(k as nat, |m: int| macho_section_rec(s, pos, m))
}

/// The segment records of the `n` load commands starting at `pos`, in
/// command order.
pub open spec fn macho_segments_spec(s: Seq<u8>, pos: int, n: int) -> Seq<MachoSegView>
    decreases n,
{
    if n <= 0 {
        Seq::empty()
    } else {
        let rest = macho_segments_spec(s, pos + macho_cmdsize(s, pos), n - 1);
        if macho_cmd(s, pos) == macho_seg_cmd(s) {
            seq![macho_segment_rec(s, pos)] + rest
        } else {
            rest
        }
    }
}

/// The section records of the `n` load commands starting at `pos`, in
/// command and entry order.
pub open spec fn macho_sections_spec(s: Seq<u8>, pos: int, n: int) -> Seq<MachoSectView>
    decreases n,
{
    if n <= 0 {
        Seq::empty()
    } else {
        let rest = macho_sections_spec(s, pos + macho_cmdsize(s, pos), n - 1);
        if macho_cmd(s, pos) == macho_seg_cmd(s) {
            macho_seg_sections_prefix(s, pos, macho_nsects(s, pos)) + rest
        } else {
            rest
        }
    }
}

/// Decode the segment load command at `pos`, appending its segment record
/// and its section records, or reject a command whose declared sizes or
/// file-backed ranges do not fit.
#[verifier::rlimit(100)]
fn decode_segment_cmd(
    data: &[u8],
    pos: usize,
    end: usize,
    is64: bool,
    le: bool,
    cmdsize: u32,
    segments: &mut Vec<SegmentRec>,
    sections: &mut Vec<SectionRec>,
) -> (r: Result<(), DecodeError>)
    requires
        is64 == macho_is64(data@),
        le == macho_le(data@),
        pos + 8 <= end <= data@.len(),
        macho_cmd(data@, pos as int) == macho_seg_cmd(data@),
        cmdsize == macho_cmdsize(data@, pos as int),
        pos + cmdsize <= end,
        forall|i: int|
            0 <= i < old(segments)@.len() ==> (#[trigger] old(segments)@[i]).in_bounds(
                data@.len() as int,
            ),
        forall|i: int|
            0 <= i < old(sections)@.len() ==> (#[trigger] old(sections)@[i]).in_bounds(
                data@.len() as int,
            ),
    ensures
        match r {
            Ok(()) => {
                &&& macho_cmd_ok(data@, pos as int)
                &&& macho_segs_view(final(segments)@) == macho_segs_view(old(segments)@).push(
                    macho_segment_rec(data@, pos as int),
                )
                &&& macho_sects_view(final(sections)@) == macho_sects_view(old(sections)@)
                    + macho_seg_sections_prefix(data@, pos as int, macho_nsects(data@, pos as int))
                &&& (forall|i: int|
                    0 <= i < final(segments)@.len() ==> (#[trigger] final(segments)@[i]).in_bounds(
                        data@.len() as int,
                    ))
                &&& (forall|i: int|
                    0 <= i < final(sections)@.len() ==> (#[trigger] final(sections)@[i]).in_bounds(
                        data@.len() as int,
                    ))
            },
            Err(e) => !macho_cmd_ok(data@, pos as int) && e
                == DecodeError::TruncatedOrOutOfBoundsTable,
        },
{
    let len = data.len();
    let seg_size: usize = if is64 {
        72
    } else {
        56
    };
    let sect_size: usize = if is64 {
        80
    } else {
        68
    };
    if cmdsize < seg_size as u32 {
        proof {
            assert(macho_nsects(data@, pos as int) * macho_sect_size(data@) >= 0)
                by (nonlinear_arith)
                requires
                    macho_nsects(data@, pos as int) >= 0,
                    macho_sect_size(data@) > 0,
            ;
            assert(!macho_cmd_ok(data@, pos as int));
        }
        return Err(DecodeError::TruncatedOrOutOfBoundsTable);
    }
    let nsects = read_u32(data, pos + (if is64 { 64 } else { 48 }), le);
    proof {
        assert((nsects as int) * (sect_size as int) <= 0xffffffff * 80) by (nonlinear_arith)
            requires
                0 <= nsects as int <= 0xffffffff,
                0 <= sect_size as int <= 80,
        ;
    }
    let prod: u64 = (nsects as u64) * (sect_size as u64);
    let rest: u32 = cmdsize - seg_size as u32;
    if !(prod <= rest as u64) {
        proof {
            assert(macho_seg_size(data@) + macho_nsects(data@, pos as int) * macho_sect_size(
                data@,
            ) > macho_cmdsize(data@, pos as int)) by (nonlinear_arith)
                requires
                    macho_nsects(data@, pos as int) == nsects as int,
                    macho_sect_size(data@) == sect_size as int,
                    macho_seg_size(data@) == seg_size as int,
                    macho_cmdsize(data@, pos as int) == cmdsize as int,
                    prod as int == (nsects as int) * (sect_size as int),
                    prod as int > cmdsize as int - seg_size as int,
                    cmdsize as int >= seg_size as int,
            ;
            assert(!macho_cmd_ok(data@, pos as int));
        }
        return Err(DecodeError::TruncatedOrOutOfBoundsTable);
    }
    let vmaddr: u64 = if is64 {
        read_u64(data, pos + 24, le)
    } else {
        read_u32(data, pos + 24, le) as u64
    };
    let vmsize: u64 = if is64 {
        read_u64(data, pos + 32, le)
    } else {
        read_u32(data, pos + 28, le) as u64
    };
    let fileoff: u64 = if is64 {
        read_u64(data, pos + 40, le)
    } else {
        read_u32(data, pos + 32, le) as u64
    };
    let filesize: u64 = if is64 {
        read_u64(data, pos + 48, le)
    } else {
        read_u32(data, pos + 36, le) as u64
    };
    if !(fileoff <= len as u64 && filesize <= len as u64 - fileoff) {
        proof {
            assert(!macho_cmd_ok(data@, pos as int));
        }
        return Err(DecodeError::TruncatedOrOutOfBoundsTable);
    }
    let seg_name = read_cstr(data, pos + 8, pos + 24);
    let seg_rec = SegmentRec {
        name: Some(seg_name),
        address: vmaddr,
        size: vmsize,
        offset: fileoff as usize,
        file_size: filesize as usize,
    };
    proof {
        assert(macho_seg_view(seg_rec) == macho_segment_rec(data@, pos as int));
        assert(macho_segs_view(segments@.push(seg_rec)) =~= macho_segs_view(segments@).push(
            macho_seg_view(seg_rec),
        ));
    }
    segments.push(seg_rec);
    let ghost snap = sections@;
    let mut k: usize = 0;
    while k < nsects as usize
        invariant
            len == data@.len(),
            is64 == macho_is64(data@),
            le == macho_le(data@),
            pos + 8 <= end <= len,
            seg_size == macho_seg_size(data@),
            sect_size == macho_sect_size(data@),
            macho_cmd(data@, pos as int) == macho_seg_cmd(data@),
            nsects == macho_nsects(data@, pos as int),
            seg_size + nsects * sect_size <= cmdsize,
            pos + cmdsize <= end,
            0 <= k <= nsects,
            sections@.len() == snap.len() + k,
            macho_sects_view(sections@) == macho_sects_view(snap) + macho_seg_sections_prefix(
                data@,
                pos as int,
                k as int,
            ),
            forall|m: int| 0 <= m < k ==> #[trigger] macho_sect_ok(data@, pos as int, m),
            forall|i: int|
                0 <= i < sections@.len() ==> (#[trigger] sections@[i]).in_bounds(len as int),
        decreases nsects - k,
    {
        proof {
            assert(0 <= k * sect_size && k * sect_size + sect_size <= nsects * sect_size)
                by (nonlinear_arith)
                requires
                    0 <= k < nsects,
                    0 < sect_size,
            ;
        }
        let base = pos + seg_size + k * sect_size;
        proof {
            assert(base + sect_size <= pos + cmdsize);
            assert(base == macho_sect_base(data@, pos as int, k as int));
        }
        let sect_name = read_cstr(data, base, base + 16);
        let sect_seg_name = read_cstr(data, base + 16, base + 32);
        let addr: u64 = if is64 {
            read_u64(data, base + 32, le)
        } else {
            read_u32(data, base + 32, le) as u64
        };
        let size: u64 = if is64 {
            read_u64(data, base + 40, le)
        } else {
            read_u32(data, base + 36, le) as u64
        };
        let offset = read_u32(data, base + (if is64 { 48 } else { 40 }), le);
        let flags = read_u32(data, base + (if is64 { 64 } else { 56 }), le);
        let typ = flags & 0xff;
        let zf = typ == S_ZEROFILL || typ == S_GB_ZEROFILL || typ == S_THREAD_LOCAL_ZEROFILL;
        let offset_us: usize;
        let fsize_us: usize;
        if zf {
            offset_us = 0;
            fsize_us = 0;
        } else {
            if !(offset as u64 <= len as u64 && size <= len as u64 - offset as u64) {
                proof {
                    assert(!macho_sect_ok(data@, pos as int, k as int));
                    assert(!macho_cmd_ok(data@, pos as int));
                }
                return Err(DecodeError::TruncatedOrOutOfBoundsTable);
            }
            offset_us = offset as usize;
            fsize_us = size as usize;
        }
        let kind = macho_section_kind(flags);
        let rec = SectionRec {
            name: Some(sect_name),
            segment_name: Some(sect_seg_name),
            address: addr,
            size,
            offset: offset_us,
            file_size: fsize_us,
            kind,
        };
        proof {
            assert(macho_sect_ok(data@, pos as int, k as int));
            assert(macho_sect_view(rec) == macho_section_rec(data@, pos as int, k as int));
            assert(macho_sects_view(sections@.push(rec)) =~= macho_sects_view(sections@).push(
                macho_sect_view(rec),
            ));
            assert(macho_sects_view(snap) + macho_seg_sections_prefix(
                data@,
                pos as int,
                k as int + 1,
            ) =~= (macho_sects_view(snap) + macho_seg_sections_prefix(
                data@,
                pos as int,
                k as int,
            )).push(macho_sect_view(rec)));
        }
        sections.push(rec);
        k = k + 1;
    }
    proof {
        assert(macho_cmd_ok(data@, pos as int));
    }
    Ok(())
}

/// A decoded Mach-O object file.
#[derive(Debug)]
pub struct MachOFile {
    /// The header's CPU type field.
    pub cputype: u32,
    /// The magic declared 64-bit field widths.
    pub is64: bool,
    /// The magic declared little-endian fields.
    pub little_endian: bool,
    /// One record per segment load command, in command order.
    pub segments: Vec<SegmentRec>,
    /// One record per section entry, in command and entry order.
    pub sections: Vec<SectionRec>,
    /// Symbol tables are not decoded for this format; the list is empty.
    pub symbols: Vec<Symbol>,
}

impl MachOFile {
    /// Every stored record stays within a buffer of length `n`.
    pub open spec fn wf(self, n: int) -> bool {
        &&& forall|i: int|
            0 <= i < self.sections@.len() ==> (#[trigger] self.sections@[i]).in_bounds(n)
        &&& forall|i: int|
            0 <= i < self.segments@.len() ==> (#[trigger] self.segments@[i]).in_bounds(n)
    }

    /// Everything [`parse`](MachOFile::parse) promises of a decoded file.
    pub open spec fn parse_ok(self, s: Seq<u8>) -> bool {
        &&& macho_valid(s)
        &&& self.wf(s.len() as int)
        &&& self.is64 == macho_is64(s)
        &&& self.little_endian == macho_le(s)
        &&& self.cputype == macho_cputype(s)
        &&& macho_segs_view(self.segments@) == macho_segments_spec(
            s,
            macho_hdr_size(s),
            macho_ncmds(s),
        )
        &&& macho_sects_view(self.sections@) == macho_sections_spec(
            s,
            macho_hdr_size(s),
            macho_ncmds(s),
        )
        &&& self.symbols@.len() == 0
    }

    /// Machine type, resolved from the header's CPU type field.
    /// Unrecognized values map to `Machine::Other`, never to an error.
    pub fn machine(&self) -> (r: Machine)
        ensures
            r == spec_macho_machine(self.cputype as int),
    {
        if self.cputype == CPU_TYPE_X86 {
            Machine::X86
        } else if self.cputype == CPU_TYPE_X86_64 {
            Machine::X86_64
        } else if self.cputype == CPU_TYPE_ARM {
            Machine::Arm
        } else if self.cputype == CPU_TYPE_ARM64 {
            Machine::Arm64
        } else {
            Machine::Other
        }
    }

    /// Whether the magic declared little-endian fields.
    pub fn is_little_endian(&self) -> (r: bool)
        ensures
            r == self.little_endian,
    {
        self.little_endian
    }

    /// Parse the raw Mach-O file data. Succeeds exactly on buffers that
    /// [`macho_valid`] accepts; a failure distinguishes a malformed header
    /// from a command or table that runs out of the buffer.
    #[verifier::rlimit(100)]
    pub fn parse(data: &[u8]) -> (r: Result<MachOFile, DecodeError>)
        ensures
            match r {
                Ok(f) => f.parse_ok(data@),
                Err(e) => !macho_valid(data@) && e == macho_decode_err(data@),
            },
    {
        let len = data.len();
        if len < 4 {
            return Err(DecodeError::MalformedHeader);
        }
        let magic = read_u32(data, 0, false);
        let is64: bool;
        let le: bool;
        if magic == MH_MAGIC {
            is64 = false;
            le = false;
        } else if magic == MH_CIGAM {
            is64 = false;
            le = true;
        } else if magic == MH_MAGIC_64 {
            is64 = true;
            le = false;
        } else if magic == MH_CIGAM_64 {
            is64 = true;
            le = true;
        } else {
            // No thin magic: a fat container or not Mach-O at all.
            return Err(DecodeError::MalformedHeader);
        }
        let hdr: usize = if is64 {
            32
        } else {
            28
        };
        if len < hdr {
            return Err(DecodeError::MalformedHeader);
        }
        proof {
            assert(is64 == macho_is64(data@));
            assert(le == macho_le(data@));
            assert(macho_header_ok(data@));
        }
        let cputype = read_u32(data, 4, le);
        let ncmds = read_u32(data, 16, le);
        let sizeofcmds = read_u32(data, 20, le);
        if !(sizeofcmds as u64 <= len as u64 - hdr as u64) {
            return Err(DecodeError::TruncatedOrOutOfBoundsTable);
        }
        let end: usize = hdr + sizeofcmds as usize;
        proof {
            assert(end == macho_cmds_end(data@));
        }
        let mut segments: Vec<SegmentRec> = Vec::new();
        let mut sections: Vec<SectionRec> = Vec::new();
        let mut pos: usize = hdr;
        let mut t: u32 = 0;
        proof {
            assert(macho_segs_view(segments@) + macho_segments_spec(data@, pos as int, ncmds as int)
                =~= macho_segments_spec(data@, hdr as int, ncmds as int));
            assert(macho_sects_view(sections@) + macho_sections_spec(data@, pos as int, ncmds as int)
                =~= macho_sections_spec(data@, hdr as int, ncmds as int));
        }
        while t < ncmds
            invariant
                len == data@.len(),
                is64 == macho_is64(data@),
                le == macho_le(data@),
                macho_header_ok(data@),
                end == macho_cmds_end(data@),
                end <= len,
                ncmds == macho_ncmds(data@),
                hdr == macho_hdr_size(data@),
                0 <= t <= ncmds,
                hdr <= pos <= end,
                macho_cmds_ok(data@, hdr as int, end as int, ncmds as int) <==> macho_cmds_ok(
                    data@,
                    pos as int,
                    end as int,
                    ncmds - t,
                ),
                macho_segments_spec(data@, hdr as int, ncmds as int) == macho_segs_view(segments@)
                    + macho_segments_spec(data@, pos as int, ncmds - t),
                macho_sections_spec(data@, hdr as int, ncmds as int) == macho_sects_view(sections@)
                    + macho_sections_spec(data@, pos as int, ncmds - t),
                forall|i: int|
                    0 <= i < sections@.len() ==> (#[trigger] sections@[i]).in_bounds(len as int),
                forall|i: int|
                    0 <= i < segments@.len() ==> (#[trigger] segments@[i]).in_bounds(len as int),
            decreases ncmds - t,
        {
            if end - pos < 8 {
                proof {
                    assert(!macho_cmds_ok(data@, pos as int, end as int, ncmds - t));
                }
                return Err(DecodeError::TruncatedOrOutOfBoundsTable);
            }
            let cmd = read_u32(data, pos, le);
            let cmdsize = read_u32(data, pos + 4, le);
            if cmdsize < 8 {
                proof {
                    assert(!macho_cmds_ok(data@, pos as int, end as int, ncmds - t));
                }
                return Err(DecodeError::TruncatedOrOutOfBoundsTable);
            }
            if !(cmdsize as u64 <= end as u64 - pos as u64) {
                proof {
                    assert(!macho_cmds_ok(data@, pos as int, end as int, ncmds - t));
                }
                return Err(DecodeError::TruncatedOrOutOfBoundsTable);
            }
            let seg_cmd: u32 = if is64 {
                LC_SEGMENT_64
            } else {
                LC_SEGMENT
            };
            if cmd == seg_cmd {
                match decode_segment_cmd(data, pos, end, is64, le, cmdsize, &mut segments, &mut sections) {
                    Ok(()) => {},
                    Err(e) => {
                        proof {
                            assert(!macho_cmds_ok(data@, pos as int, end as int, ncmds - t));
                        }
                        return Err(e);
                    },
                }
            }
            proof {
                let s = data@;
                let p = pos as int;
                let n = ncmds - t;
                assert(macho_cmds_ok(s, p, end as int, n) <==> macho_cmds_ok(
                    s,
                    p + macho_cmdsize(s, p),
                    end as int,
                    n - 1,
                ));
                if macho_cmd(s, p) == macho_seg_cmd(s) {
                    assert(macho_segments_spec(s, p, n) =~= seq![macho_segment_rec(s, p)]
                        + macho_segments_spec(s, p + macho_cmdsize(s, p), n - 1));
                    assert(macho_sections_spec(s, p, n) =~= macho_seg_sections_prefix(
                        s,
                        p,
                        macho_nsects(s, p),
                    ) + macho_sections_spec(s, p + macho_cmdsize(s, p), n - 1));
                } else {
                    assert(macho_segments_spec(s, p, n) =~= macho_segments_spec(
                        s,
                        p + macho_cmdsize(s, p),
                        n - 1,
                    ));
                    assert(macho_sections_spec(s, p, n) =~= macho_sections_spec(
                        s,
                        p + macho_cmdsize(s, p),
                        n - 1,
                    ));
                }
            }
            pos = pos + cmdsize as usize;
            t = t + 1;
        }
        proof {
            assert(macho_cmds_ok(data@, pos as int, end as int, 0));
            assert(macho_valid(data@));
            assert(macho_segs_view(segments@) + macho_segments_spec(data@, pos as int, 0)
                =~= macho_segs_view(segments@));
            assert(macho_sects_view(sections@) + macho_sections_spec(data@, pos as int, 0)
                =~= macho_sects_view(sections@));
        }
        let f = MachOFile {
            cputype,
            is64,
            little_endian: le,
            segments,
            sections,
            symbols: Vec::new(),
        };
        Ok(f)
    }
}

} // verus!
