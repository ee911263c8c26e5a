//! A unified, read-only view over compiled object files.
//!
//! The crate decodes the three common binary container formats — ELF,
//! Mach-O and PE/COFF — from an untrusted in-memory byte buffer and
//! presents one format-agnostic surface over them: machine type, byte
//! order, loadable segments, named sections and symbol-table entries.
//!
//! Parsing is all-or-nothing: [`File::parse`] sniffs the magic bytes,
//! validates the matching format's headers and tables with exact bounds
//! checks, and either returns a handle or a [`DecodeError`]. Every byte
//! range a view hands out is a sub-slice of the original input buffer,
//! never a copy and never out of its bounds.

use vstd::prelude::*;
use vstd::slice::slice_index_get;
use vstd::slice::slice_subrange;

pub mod bytes;
pub mod elf;
pub mod macho;
pub mod pe;

pub use elf::ElfFile;
pub use macho::MachOFile;
pub use pe::PeFile;

verus! {

/// The machine (architecture) type of an object file.
#[derive(Debug, Clone, Copy, PartialEq, Eq, Structural)]
pub enum Machine {
    /// An unrecognized machine type.
    Other,
    /// ARM
    Arm,
    /// ARM64
    Arm64,
    /// x86
    X86,
    /// x86-64
    X86_64,
}

/// The classification of a section, collapsed from the format-specific
/// attribute flags into one small shared taxonomy.
#[derive(Debug, Clone, Copy, PartialEq, Eq, Structural)]
pub enum SectionKind {
    /// The section kind is unknown.
    Unknown,
    /// An executable code section.
    Text,
    /// A writable data section.
    Data,
    /// A read-only data section.
    ReadOnlyData,
    /// An uninitialized (zero-filled at load time) data section.
    UninitializedData,
    /// Some other kind of text or data section.
    Other,
}

/// The kind of a symbol-table entry.
#[derive(Debug, Clone, Copy, PartialEq, Eq, Structural)]
pub enum SymbolKind {
    /// The symbol kind is unknown.
    Unknown,
    /// The symbol is for executable code.
    Text,
    /// The symbol is for a data object.
    Data,
    /// The symbol is for a section.
    Section,
    /// The symbol is the name of a file. It precedes symbols within that file.
    File,
    /// The symbol is for an uninitialized common block.
    Common,
    /// The symbol is for a thread-local storage entity.
    Tls,
}

/// Why a buffer could not be decoded.
#[derive(Debug, Clone, Copy, PartialEq, Eq, Structural)]
pub enum DecodeError {
    /// No known magic signature matched the start of the buffer.
    UnrecognizedFormat,
    /// A magic signature matched, but the format's header fields are
    /// inconsistent or invalid.
    MalformedHeader,
    /// The header is well formed, but a table or a table entry refers to
    /// bytes beyond the end of the buffer.
    TruncatedOrOutOfBoundsTable,
}

/// One decoded section-table entry. The record stores only plain values:
/// where the section's file-backed bytes lie in the buffer (`offset`,
/// `file_size`), its virtual address and declared size, its resolved name,
/// and its classified kind.
#[derive(Debug)]
pub struct SectionRec {
    /// The resolved section name, or `None` when it could not be resolved.
    pub name: Option<Vec<u8>>,
    /// The enclosing segment's name, for formats that group sections.
    pub segment_name: Option<Vec<u8>>,
    /// The virtual address of the section.
    pub address: u64,
    /// The declared (virtual) size of the section.
    pub size: u64,
    /// Start of the section's file-backed bytes within the buffer.
    pub offset: usize,
    /// Number of file-backed bytes; zero for purely zero-filled sections.
    pub file_size: usize,
    /// The classified kind of the section.
    pub kind: SectionKind,
}

impl SectionRec {
    /// The record's file-backed byte range lies within a buffer of length `n`.
    pub open spec fn in_bounds(self, n: int) -> bool {
        self.offset + self.file_size <= n
    }

    /// The record carries `nm` as its resolved name.
    pub open spec fn has_name(self, nm: Seq<u8>) -> bool {
        self.name matches Some(v) && v@ == nm
    }
}

/// One decoded loadable-segment entry, with the same plain-value layout as
/// [`SectionRec`].
#[derive(Debug)]
pub struct SegmentRec {
    /// The segment's name, for formats that name segments.
    pub name: Option<Vec<u8>>,
    /// The virtual address of the segment.
    pub address: u64,
    /// The declared virtual size of the segment.
    pub size: u64,
    /// Start of the segment's file-backed bytes within the buffer.
    pub offset: usize,
    /// Number of file-backed bytes; may be less than `size` when the tail of
    /// the segment is zero-filled at load time.
    pub file_size: usize,
}

impl SegmentRec {
    /// The record's file-backed byte range lies within a buffer of length `n`.
    pub open spec fn in_bounds(self, n: int) -> bool {
        self.offset + self.file_size <= n
    }
}

/// A symbol-table entry.
#[derive(Debug)]
pub struct Symbol {
    /// The classified kind of the symbol.
    pub kind: SymbolKind,
    /// The raw section index of the defining section, as stored in the entry.
    pub section: usize,
    /// The kind of the defining section, or `None` for an undefined symbol.
    pub section_kind: Option<SectionKind>,
    /// Whether the symbol has global (or weak) rather than local binding.
    pub global: bool,
    /// The symbol's name, or `None` when the name could not be resolved.
    pub name: Option<Vec<u8>>,
    /// The address of the symbol. May be zero if the address is unknown.
    pub address: u64,
    /// The size of the symbol. May be zero if the size is unknown.
    pub size: u64,
}

impl Symbol {
    /// Return the kind of this symbol.
    pub fn kind(&self) -> (r: SymbolKind)
        ensures
            r == self.kind,
    {
        self.kind
    }

    /// Return the section kind for the symbol, or `None` if the symbol is
    /// undefined.
    pub fn section_kind(&self) -> (r: Option<SectionKind>)
        ensures
            r == self.section_kind,
    {
        self.section_kind
    }

    /// Return true if the symbol is undefined.
    pub fn is_undefined(&self) -> (r: bool)
        ensures
            r == self.section_kind is None,
    {
        self.section_kind.is_none()
    }

    /// Return true if the symbol is global.
    pub fn is_global(&self) -> (r: bool)
        ensures
            r == self.global,
    {
        self.global
    }

    /// Return true if the symbol is local.
    pub fn is_local(&self) -> (r: bool)
        ensures
            r == !self.global,
    {
        !self.global
    }

    /// The name of the symbol, as the byte string stored in the file.
    pub fn name(&self) -> (r: &Option<Vec<u8>>)
        ensures
            r == self.name,
    {
        &self.name
    }

    /// The address of the symbol. May be zero if the address is unknown.
    pub fn address(&self) -> (r: u64)
        ensures
            r == self.address,
    {
        self.address
    }

    /// The size of the symbol. May be zero if the size is unknown.
    pub fn size(&self) -> (r: u64)
        ensures
            r == self.size,
    {
        self.size
    }
}

/// The specification-level view of an optional byte-string name.
pub open spec fn opt_bytes_view(o: Option<Vec<u8>>) -> Option<Seq<u8>> {
    match o {
        Some(v) => Some(v@),
        None => None,
    }
}

/// Copy a byte string.
fn clone_bytes(v: &Vec<u8>) -> (r: Vec<u8>)
    ensures
        r@ == v@,
{
    let n = v.len();
    let mut out: Vec<u8> = Vec::new();
    let mut i: usize = 0;
    while i < n
        invariant
            n == v@.len(),
            0 <= i <= n,
            out@.len() == i,
            forall|j: int| 0 <= j < i ==> out@[j] == v@[j],
        decreases n - i,
    {
        out.push(v[i]);
        i = i + 1;
    }
    proof {
        assert(out@ =~= v@);
    }
    out
}

/// Copy an optional byte-string name.
fn clone_opt_bytes(o: &Option<Vec<u8>>) -> (r: Option<Vec<u8>>)
    ensures
        opt_bytes_view(r) == opt_bytes_view(*o),
{
    match o {
        Some(v) => Some(clone_bytes(v)),
        None => None,
    }
}

/// A section of a `File`: a borrowed view carrying the resolved names, the
/// addresses and sizes, the classified kind, and the section's file-backed
/// bytes as a sub-slice of the input buffer.
#[derive(Debug)]
pub struct Section<'data> {
    /// The resolved section name, or `None` when it could not be resolved.
    pub name: Option<Vec<u8>>,
    /// The enclosing segment's name, for formats that group sections.
    pub segment_name: Option<Vec<u8>>,
    /// The virtual address of the section.
    pub address: u64,
    /// The declared (virtual) size of the section.
    pub size: u64,
    /// The section's file-backed bytes, borrowed from the input buffer.
    pub data: &'data [u8],
    /// The classified kind of the section.
    pub kind: SectionKind,
}

impl<'data> Section<'data> {
    /// The virtual address of the section.
    pub fn address(&self) -> (r: u64)
        ensures
            r == self.address,
    {
        self.address
    }

    /// The declared (virtual) size of the section.
    pub fn size(&self) -> (r: u64)
        ensures
            r == self.size,
    {
        self.size
    }

    /// The section's file-backed bytes, borrowed from the input buffer.
    pub fn data(&self) -> (r: &'data [u8])
        ensures
            r == self.data,
    {
        self.data
    }

    /// The section's name, as the byte string stored in the file.
    pub fn name(&self) -> (r: &Option<Vec<u8>>)
        ensures
            r == self.name,
    {
        &self.name
    }

    /// The enclosing segment's name, or `None` for formats that do not
    /// group sections under segments.
    pub fn segment_name(&self) -> (r: &Option<Vec<u8>>)
        ensures
            r == self.segment_name,
    {
        &self.segment_name
    }

    /// The classified kind of the section. A pure read of the stored
    /// classification: calling it any number of times yields the same kind.
    pub fn kind(&self) -> (r: SectionKind)
        ensures
            r == self.kind,
    {
        self.kind
    }
}

/// A loadable segment of a `File`: a borrowed view with the same layout
/// discipline as [`Section`].
#[derive(Debug)]
pub struct Segment<'data> {
    /// The segment's name, for formats that name segments.
    pub name: Option<Vec<u8>>,
    /// The virtual address of the segment.
    pub address: u64,
    /// The declared virtual size of the segment.
    pub size: u64,
    /// The segment's file-backed bytes, borrowed from the input buffer.
    /// May be shorter than `size` when the tail is zero-filled at load
    /// time: only the file-backed bytes are exposed, never a zero-padded
    /// copy.
    pub data: &'data [u8],
}

impl<'data> Segment<'data> {
    /// The virtual address of the segment.
    pub fn address(&self) -> (r: u64)
        ensures
            r == self.address,
    {
        self.address
    }

    /// The declared virtual size of the segment.
    pub fn size(&self) -> (r: u64)
        ensures
            r == self.size,
    {
        self.size
    }

    /// The segment's file-backed bytes, borrowed from the input buffer.
    pub fn data(&self) -> (r: &'data [u8])
        ensures
            r == self.data,
    {
        self.data
    }

    /// The segment's name, as the byte string stored in the file.
    pub fn name(&self) -> (r: &Option<Vec<u8>>)
        ensures
            r == self.name,
    {
        &self.name
    }
}

/// The view `sec` reproduces the record `rec` over the buffer `buf`: same
/// names, addresses, sizes and kind, and its data is exactly the record's
/// file-backed byte range of `buf`.
pub open spec fn section_view_ok(sec: Section, rec: SectionRec, buf: Seq<u8>) -> bool {
    &&& opt_bytes_view(sec.name) == opt_bytes_view(rec.name)
    &&& opt_bytes_view(sec.segment_name) == opt_bytes_view(rec.segment_name)
    &&& sec.address == rec.address
    &&& sec.size == rec.size
    &&& sec.kind == rec.kind
    &&& sec.data@ == buf.subrange(rec.offset as int, rec.offset + rec.file_size)
}

/// The view `seg` reproduces the record `rec` over the buffer `buf`.
pub open spec fn segment_view_ok(seg: Segment, rec: SegmentRec, buf: Seq<u8>) -> bool {
    &&& opt_bytes_view(seg.name) == opt_bytes_view(rec.name)
    &&& seg.address == rec.address
    &&& seg.size == rec.size
    &&& seg.data@ == buf.subrange(rec.offset as int, rec.offset + rec.file_size)
}

/// A section view's data always has exactly the record's declared
/// file-backed size, and lies entirely within the buffer it was sliced
/// from.
pub proof fn lemma_section_data_within_buffer(sec: Section, rec: SectionRec, buf: Seq<u8>)
    requires
        section_view_ok(sec, rec, buf),
        rec.in_bounds(buf.len() as int),
    ensures
        sec.data@.len() == rec.file_size,
        rec.offset + rec.file_size <= buf.len(),
        sec.data@ == buf.subrange(rec.offset as int, rec.offset + rec.file_size),
{
}

/// An iterator over the sections of a `File`. The remaining views are
/// stored back to front; each `next` hands out the front-most one.
#[derive(Debug)]
pub struct SectionIterator<'data> {
    /// The views not yet handed out, in reverse order.
    pub rest: Vec<Section<'data>>,
}

impl<'data> SectionIterator<'data> {
    /// Hand out the next section view, or `None` when the iteration is
    /// done.
    pub fn next(&mut self) -> (r: Option<Section<'data>>)
        ensures
            old(self).rest@.len() == 0 ==> r is None && final(self).rest@ == old(self).rest@,
            old(self).rest@.len() > 0 ==> r == Some(old(self).rest@[old(self).rest@.len() - 1])
                && final(self).rest@ == old(self).rest@.subrange(0, old(self).rest@.len() - 1),
    {
        self.rest.pop()
    }
}

/// An iterator over the loadable segments of a `File`, laid out like
/// [`SectionIterator`].
#[derive(Debug)]
pub struct SegmentIterator<'data> {
    /// The views not yet handed out, in reverse order.
    pub rest: Vec<Segment<'data>>,
}

impl<'data> SegmentIterator<'data> {
    /// Hand out the next segment view, or `None` when the iteration is
    /// done.
    pub fn next(&mut self) -> (r: Option<Segment<'data>>)
        ensures
            old(self).rest@.len() == 0 ==> r is None && final(self).rest@ == old(self).rest@,
            old(self).rest@.len() > 0 ==> r == Some(old(self).rest@[old(self).rest@.len() - 1])
                && final(self).rest@ == old(self).rest@.subrange(0, old(self).rest@.len() - 1),
    {
        self.rest.pop()
    }
}

/// Build the reversed section views for an iterator from the decoded
/// records.
fn sections_iter_from<'d>(data: &'d [u8], recs: &Vec<SectionRec>) -> (r: SectionIterator<'d>)
    requires
        forall|i: int| 0 <= i < recs@.len() ==> (#[trigger] recs@[i]).in_bounds(data@.len() as int),
    ensures
        r.rest@.len() == recs@.len(),
        forall|i: int|
            0 <= i < r.rest@.len() ==> section_view_ok(
                #[trigger] r.rest@[i],
                recs@[recs@.len() - 1 - i],
                data@,
            ),
{
    let len = data.len();
    let n = recs.len();
    let mut rest: Vec<Section<'d>> = Vec::new();
    let mut i: usize = 0;
    while i < n
        invariant
            len == data@.len(),
            n == recs@.len(),
            forall|m: int|
                0 <= m < recs@.len() ==> (#[trigger] recs@[m]).in_bounds(data@.len() as int),
            0 <= i <= n,
            rest@.len() == i,
            forall|j: int|
                0 <= j < i ==> section_view_ok(#[trigger] rest@[j], recs@[n - 1 - j], data@),
        decreases n - i,
    {
        let rec = &recs[n - 1 - i];
        let sec = Section {
            name: clone_opt_bytes(&rec.name),
            segment_name: clone_opt_bytes(&rec.segment_name),
            address: rec.address,
            size: rec.size,
            data: slice_subrange(data, rec.offset, rec.offset + rec.file_size),
            kind: rec.kind,
        };
        proof {
            assert(section_view_ok(sec, recs@[n - 1 - i as int], data@));
        }
        rest.push(sec);
        i = i + 1;
    }
    SectionIterator { rest }
}

/// Build the reversed segment views for an iterator from the decoded
/// records.
fn segments_iter_from<'d>(data: &'d [u8], recs: &Vec<SegmentRec>) -> (r: SegmentIterator<'d>)
    requires
        forall|i: int| 0 <= i < recs@.len() ==> (#[trigger] recs@[i]).in_bounds(data@.len() as int),
    ensures
        r.rest@.len() == recs@.len(),
        forall|i: int|
            0 <= i < r.rest@.len() ==> segment_view_ok(
                #[trigger] r.rest@[i],
                recs@[recs@.len() - 1 - i],
                data@,
            ),
{
    let len = data.len();
    let n = recs.len();
    let mut rest: Vec<Segment<'d>> = Vec::new();
    let mut i: usize = 0;
    while i < n
        invariant
            len == data@.len(),
            n == recs@.len(),
            forall|m: int|
                0 <= m < recs@.len() ==> (#[trigger] recs@[m]).in_bounds(data@.len() as int),
            0 <= i <= n,
            rest@.len() == i,
            forall|j: int|
                0 <= j < i ==> segment_view_ok(#[trigger] rest@[j], recs@[n - 1 - j], data@),
        decreases n - i,
    {
        let rec = &recs[n - 1 - i];
        let seg = Segment {
            name: clone_opt_bytes(&rec.name),
            address: rec.address,
            size: rec.size,
            data: slice_subrange(data, rec.offset, rec.offset + rec.file_size),
        };
        proof {
            assert(segment_view_ok(seg, recs@[n - 1 - i as int], data@));
        }
        rest.push(seg);
        i = i + 1;
    }
    SegmentIterator { rest }
}

/// The segment record a PE section stands for: PE exposes its sections as
/// the loadable units.
pub open spec fn pe_seg_of(rec: SectionRec) -> SegmentRec {
    SegmentRec {
        name: rec.name,
        address: rec.address,
        size: rec.size,
        offset: rec.offset,
        file_size: rec.file_size,
    }
}

/// Build the reversed segment views of a PE file from its section records.
fn pe_segments_iter_from<'d>(data: &'d [u8], recs: &Vec<SectionRec>) -> (r: SegmentIterator<'d>)
    requires
        forall|i: int| 0 <= i < recs@.len() ==> (#[trigger] recs@[i]).in_bounds(data@.len() as int),
    ensures
        r.rest@.len() == recs@.len(),
        forall|i: int|
            0 <= i < r.rest@.len() ==> segment_view_ok(
                #[trigger] r.rest@[i],
                pe_seg_of(recs@[recs@.len() - 1 - i]),
                data@,
            ),
{
    let len = data.len();
    let n = recs.len();
    let mut rest: Vec<Segment<'d>> = Vec::new();
    let mut i: usize = 0;
    while i < n
        invariant
            len == data@.len(),
            n == recs@.len(),
            forall|m: int|
                0 <= m < recs@.len() ==> (#[trigger] recs@[m]).in_bounds(data@.len() as int),
            0 <= i <= n,
            rest@.len() == i,
            forall|j: int|
                0 <= j < i ==> segment_view_ok(#[trigger] rest@[j], pe_seg_of(recs@[n - 1 - j]), data@),
        decreases n - i,
    {
        let rec = &recs[n - 1 - i];
        let seg = Segment {
            name: clone_opt_bytes(&rec.name),
            address: rec.address,
            size: rec.size,
            data: slice_subrange(data, rec.offset, rec.offset + rec.file_size),
        };
        proof {
            assert(segment_view_ok(seg, pe_seg_of(recs@[n - 1 - i as int]), data@));
        }
        rest.push(seg);
        i = i + 1;
    }
    SegmentIterator { rest }
}

/// `i` is the first record carrying the name `nm`.
pub open spec fn first_name_match(recs: Seq<SectionRec>, nm: Seq<u8>, i: int) -> bool {
    &&& 0 <= i < recs.len()
    &&& recs[i].has_name(nm)
    &&& forall|j: int| 0 <= j < i ==> !(#[trigger] recs[j]).has_name(nm)
}

/// Linear scan over the section records: the first record whose resolved
/// name equals `name` wins, and its file-backed bytes are returned; no
/// match is a normal outcome, never an error.
fn section_data_by_name_in<'d>(data: &'d [u8], recs: &Vec<SectionRec>, name: &[u8]) -> (r: Option<
    &'d [u8],
>)
    requires
        forall|i: int| 0 <= i < recs@.len() ==> (#[trigger] recs@[i]).in_bounds(data@.len() as int),
    ensures
        match r {
            Some(d) => exists|i: int|
                #[trigger] first_name_match(recs@, name@, i) && d@ == data@.subrange(
                    recs@[i].offset as int,
                    recs@[i].offset + recs@[i].file_size,
                ),
            None => forall|i: int| 0 <= i < recs@.len() ==> !(#[trigger] recs@[i]).has_name(name@),
        },
{
    let len = data.len();
    let n = recs.len();
    let mut i: usize = 0;
    while i < n
        invariant
            len == data@.len(),
            n == recs@.len(),
            forall|m: int|
                0 <= m < recs@.len() ==> (#[trigger] recs@[m]).in_bounds(data@.len() as int),
            0 <= i <= n,
            forall|j: int| 0 <= j < i ==> !(#[trigger] recs@[j]).has_name(name@),
        decreases n - i,
    {
        let rec = &recs[i];
        match &rec.name {
            Some(nm) => {
                if bytes::bytes_eq(nm.as_slice(), name) {
                    let d = slice_subrange(data, rec.offset, rec.offset + rec.file_size);
                    proof {
                        assert(first_name_match(recs@, name@, i as int));
                    }
                    return Some(d);
                }
            },
            None => {},
        }
        i = i + 1;
    }
    None
}

/// An object file: one decoded format wrapped behind a single dispatching
/// surface, together with the input buffer it borrows from.
#[derive(Debug)]
pub struct File<'data> {
    /// The input buffer the file was parsed from.
    pub data: &'data [u8],
    /// The decoded format-specific representation.
    pub inner: FileInternal,
}

/// The closed set of decoded formats behind a `File`.
#[derive(Debug)]
pub enum FileInternal {
    /// An ELF image.
    Elf(elf::ElfFile),
    /// A thin Mach-O image.
    MachO(macho::MachOFile),
    /// A PE/COFF image.
    Pe(pe::PeFile),
}

/// The three formats' magic signatures are mutually exclusive: no buffer
/// starts with more than one of them.
pub proof fn lemma_magics_disjoint(s: Seq<u8>)
    ensures
        elf::is_elf_magic(s) ==> !macho::is_macho_magic(s) && !pe::is_pe_magic(s),
        macho::is_macho_magic(s) ==> !pe::is_pe_magic(s),
{
    if s.len() >= 4 {
        let m = bytes::word32(s, 0, false);
        assert(m == s[3] + 0x100 * s[2] + 0x10000 * (s[1] + 0x100 * s[0]));
        if s[0] == 0x7f {
            assert(0x7f000000 <= m < 0x80000000);
        }
        if s[0] == 0x4d {
            assert(0x4d000000 <= m < 0x4e000000);
        }
    }
}

impl<'data> File<'data> {
    /// The decoded section records of the active format.
    pub open spec fn sec_recs(self) -> Seq<SectionRec> {
        match self.inner {
            FileInternal::Elf(f) => f.sections@,
            FileInternal::MachO(f) => f.sections@,
            FileInternal::Pe(f) => f.sections@,
        }
    }

    /// The decoded loadable-segment records of the active format. PE
    /// exposes its sections as the loadable units.
    pub open spec fn seg_recs(self) -> Seq<SegmentRec> {
        match self.inner {
            FileInternal::Elf(f) => f.segments@,
            FileInternal::MachO(f) => f.segments@,
            FileInternal::Pe(f) => f.sections@.map_values(|r: SectionRec| pe_seg_of(r)),
        }
    }

    /// The decoded symbol table of the active format.
    pub open spec fn spec_symbols(self) -> Seq<Symbol> {
        match self.inner {
            FileInternal::Elf(f) => f.symbols@,
            FileInternal::MachO(f) => f.symbols@,
            FileInternal::Pe(f) => f.symbols@,
        }
    }

    /// The machine type the active format's header denotes.
    pub open spec fn spec_machine(self) -> Machine {
        match self.inner {
            FileInternal::Elf(f) => elf::spec_elf_machine(f.machine_field as int),
            FileInternal::MachO(f) => macho::spec_macho_machine(f.cputype as int),
            FileInternal::Pe(f) => pe::spec_pe_machine(f.coff_machine as int),
        }
    }

    /// The byte order the active format declares; PE is little-endian.
    pub open spec fn spec_is_little_endian(self) -> bool {
        match self.inner {
            FileInternal::Elf(f) => f.little_endian,
            FileInternal::MachO(f) => f.little_endian,
            FileInternal::Pe(_) => true,
        }
    }

    /// Every decoded record stays within the input buffer.
    pub open spec fn wf(self) -> bool {
        match self.inner {
            FileInternal::Elf(f) => f.wf(self.data@.len() as int),
            FileInternal::MachO(f) => f.wf(self.data@.len() as int),
            FileInternal::Pe(f) => f.wf(self.data@.len() as int),
        }
    }

    /// Parse the raw object file data: sniff the magic bytes, decode the
    /// matching format, and propagate that decoder's error unchanged. A
    /// buffer matching no known magic is rejected as unrecognized.
    pub fn parse(data: &'data [u8]) -> (r: Result<File<'data>, DecodeError>)
        ensures
            match r {
                Ok(f) => {
                    &&& f.data@ == data@
                    &&& f.wf()
                    &&& match f.inner {
                        FileInternal::Elf(e) => elf::is_elf_magic(data@) && e.parse_ok(data@),
                        FileInternal::MachO(m) => macho::is_macho_magic(data@) && m.parse_ok(
                            data@,
                        ),
                        FileInternal::Pe(p) => pe::is_pe_magic(data@) && p.parse_ok(data@),
                    }
                },
                Err(e) => {
                    &&& (e == DecodeError::UnrecognizedFormat <==> !elf::is_elf_magic(data@)
                        && !macho::is_macho_magic(data@) && !pe::is_pe_magic(data@))
                    &&& (elf::is_elf_magic(data@) ==> !elf::elf_valid(data@) && e
                        == elf::elf_decode_err(data@))
                    &&& (macho::is_macho_magic(data@) ==> !macho::macho_valid(data@) && e
                        == macho::macho_decode_err(data@))
                    &&& (pe::is_pe_magic(data@) ==> !pe::pe_valid(data@) && e == pe::pe_decode_err(
                        data@,
                    ))
                },
            },
    {
        let n = data.len();
        if n >= 4 && *slice_index_get(data, 0) == 0x7f && *slice_index_get(data, 1) == 0x45
            && *slice_index_get(data, 2) == 0x4c && *slice_index_get(data, 3) == 0x46 {
            proof {
                lemma_magics_disjoint(data@);
            }
            return match elf::ElfFile::parse(data) {
                Ok(f) => Ok(File { data, inner: FileInternal::Elf(f) }),
                Err(e) => Err(e),
            };
        }
        if n >= 4 {
            let m = bytes::read_u32(data, 0, false);
            if m == macho::MH_MAGIC || m == macho::MH_CIGAM || m == macho::MH_MAGIC_64 || m
                == macho::MH_CIGAM_64 || m == macho::FAT_MAGIC || m == macho::FAT_CIGAM {
                proof {
                    lemma_magics_disjoint(data@);
                }
                return match macho::MachOFile::parse(data) {
                    Ok(f) => Ok(File { data, inner: FileInternal::MachO(f) }),
                    Err(e) => Err(e),
                };
            }
        }
        if n >= 2 && *slice_index_get(data, 0) == 0x4d && *slice_index_get(data, 1) == 0x5a {
            proof {
                lemma_magics_disjoint(data@);
            }
            return match pe::PeFile::parse(data) {
                Ok(f) => Ok(File { data, inner: FileInternal::Pe(f) }),
                Err(e) => Err(e),
            };
        }
        Err(DecodeError::UnrecognizedFormat)
    }

    /// The machine type of the object file. Unrecognized architecture
    /// values map to `Machine::Other`, never to an error.
    pub fn machine(&self) -> (r: Machine)
        ensures
            r == self.spec_machine(),
    {
        match &self.inner {
            FileInternal::Elf(f) => f.machine(),
            FileInternal::MachO(f) => f.machine(),
            FileInternal::Pe(f) => f.machine(),
        }
    }

    /// Whether the object file's multi-byte fields are little-endian.
    pub fn is_little_endian(&self) -> (r: bool)
        ensures
            r == self.spec_is_little_endian(),
    {
        match &self.inner {
            FileInternal::Elf(f) => f.is_little_endian(),
            FileInternal::MachO(f) => f.is_little_endian(),
            FileInternal::Pe(f) => f.is_little_endian(),
        }
    }

    /// The decoded symbol table. A format without symbol-table support
    /// yields an empty list, not an error.
    pub fn symbols(&self) -> (r: &Vec<Symbol>)
        ensures
            r@ == self.spec_symbols(),
    {
        match &self.inner {
            FileInternal::Elf(f) => &f.symbols,
            FileInternal::MachO(f) => &f.symbols,
            FileInternal::Pe(f) => &f.symbols,
        }
    }

    /// Iterate the sections of the file, in table order.
    pub fn sections(&self) -> (r: SectionIterator<'data>)
        requires
            self.wf(),
        ensures
            r.rest@.len() == self.sec_recs().len(),
            forall|i: int|
                0 <= i < r.rest@.len() ==> section_view_ok(
                    #[trigger] r.rest@[i],
                    self.sec_recs()[self.sec_recs().len() - 1 - i],
                    self.data@,
                ),
    {
        match &self.inner {
            FileInternal::Elf(f) => sections_iter_from(self.data, &f.sections),
            FileInternal::MachO(f) => sections_iter_from(self.data, &f.sections),
            FileInternal::Pe(f) => sections_iter_from(self.data, &f.sections),
        }
    }

    /// Iterate the loadable segments of the file, in table order.
    pub fn segments(&self) -> (r: SegmentIterator<'data>)
        requires
            self.wf(),
        ensures
            r.rest@.len() == self.seg_recs().len(),
            forall|i: int|
                0 <= i < r.rest@.len() ==> segment_view_ok(
                    #[trigger] r.rest@[i],
                    self.seg_recs()[self.seg_recs().len() - 1 - i],
                    self.data@,
                ),
    {
        match &self.inner {
            FileInternal::Elf(f) => segments_iter_from(self.data, &f.segments),
            FileInternal::MachO(f) => segments_iter_from(self.data, &f.segments),
            FileInternal::Pe(f) => pe_segments_iter_from(self.data, &f.sections),
        }
    }

    /// The machine type a decoded file reports is a pure function of the
    /// active format's header architecture field: whatever format was
    /// decoded from `s`, `machine` answers exactly what that format's
    /// field denotes.
    pub proof fn lemma_machine_from_header(self, s: Seq<u8>)
        requires
            match self.inner {
                FileInternal::Elf(f) => f.parse_ok(s),
                FileInternal::MachO(f) => f.parse_ok(s),
                FileInternal::Pe(f) => f.parse_ok(s),
            },
        ensures
            match self.inner {
                FileInternal::Elf(_) => self.spec_machine() == elf::spec_elf_machine(
                    elf::elf_machine_field(s),
                ),
                FileInternal::MachO(_) => self.spec_machine() == macho::spec_macho_machine(
                    macho::macho_cputype(s),
                ),
                FileInternal::Pe(_) => self.spec_machine() == pe::spec_pe_machine(
                    pe::pe_machine_field(s),
                ),
            },
    {
    }

    /// The file-backed bytes of the first section carrying the given name,
    /// or `None` when no section does: a missing section is a normal query
    /// outcome, never an error.
    pub fn section_data_by_name(&self, section_name: &[u8]) -> (r: Option<&'data [u8]>)
        requires
            self.wf(),
        ensures
            match r {
                Some(d) => exists|i: int|
                    #[trigger] first_name_match(self.sec_recs(), section_name@, i) && d@
                        == self.data@.subrange(
                        self.sec_recs()[i].offset as int,
                        self.sec_recs()[i].offset + self.sec_recs()[i].file_size,
                    ),
                None => forall|i: int|
                    0 <= i < self.sec_recs().len() ==> !(#[trigger] self.sec_recs()[i]).has_name(
                        section_name@,
                    ),
            },
    {
        let recs: &Vec<SectionRec> = match &self.inner {
            FileInternal::Elf(f) => &f.sections,
            FileInternal::MachO(f) => &f.sections,
            FileInternal::Pe(f) => &f.sections,
        };
        proof {
            assert(recs@ == self.sec_recs());
        }
        let r = section_data_by_name_in(self.data, recs, section_name);
        proof {
            match r {
                Some(d) => {
                    let i0 = choose|i: int|
                        #[trigger] first_name_match(recs@, section_name@, i) && d@
                            == self.data@.subrange(
                            recs@[i].offset as int,
                            recs@[i].offset + recs@[i].file_size,
                        );
                    assert(first_name_match(self.sec_recs(), section_name@, i0) && d@
                        == self.data@.subrange(
                        self.sec_recs()[i0].offset as int,
                        self.sec_recs()[i0].offset + self.sec_recs()[i0].file_size,
                    ));
                },
                None => {},
            }
        }
        r
    }
}

} // verus!

