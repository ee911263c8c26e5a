use object::DecodeError;
use object::File;
use object::Machine;
use object::SectionKind;
use object::SymbolKind;

fn put_u16(d: &mut [u8], off: usize, v: u16) {
    d[off] = v as u8;
    d[off + 1] = (v >> 8) as u8;
}

fn put_u32(d: &mut [u8], off: usize, v: u32) {
    d[off] = v as u8;
    d[off + 1] = (v >> 8) as u8;
    d[off + 2] = (v >> 16) as u8;
    d[off + 3] = (v >> 24) as u8;
}

fn put_u64(d: &mut [u8], off: usize, v: u64) {
    for i in 0..8 {
        d[off + i] = (v >> (8 * i)) as u8;
    }
}

fn put_bytes(d: &mut [u8], off: usize, s: &[u8]) {
    for (i, b) in s.iter().enumerate() {
        d[off + i] = *b;
    }
}

fn put_shdr(
    d: &mut [u8],
    off: usize,
    name: u32,
    typ: u32,
    flags: u64,
    addr: u64,
    offset: u64,
    size: u64,
    link: u32,
    entsize: u64,
) {
    put_u32(d, off, name);
    put_u32(d, off + 4, typ);
    put_u64(d, off + 8, flags);
    put_u64(d, off + 16, addr);
    put_u64(d, off + 24, offset);
    put_u64(d, off + 32, size);
    put_u32(d, off + 40, link);
    put_u64(d, off + 56, entsize);
}

/// A minimal 64-bit little-endian ELF image for x86-64 with one loadable
/// segment, a `.text` section, the three bookkeeping sections, and a
/// two-entry symbol table: an undefined global function `foo` and a local
/// object `bar` defined in `.text`.
fn minimal_elf() -> Vec<u8> {
    let mut d = vec![0u8; 0x240];
    put_bytes(&mut d, 0, &[0x7f, 0x45, 0x4c, 0x46, 2, 1, 1]);
    put_u16(&mut d, 18, 62); // x86-64
    put_u64(&mut d, 32, 0x40); // e_phoff
    put_u64(&mut d, 40, 0x100); // e_shoff
    put_u16(&mut d, 54, 56); // e_phentsize
    put_u16(&mut d, 56, 1); // e_phnum
    put_u16(&mut d, 58, 64); // e_shentsize
    put_u16(&mut d, 60, 5); // e_shnum
    put_u16(&mut d, 62, 2); // e_shstrndx
    // Program header: PT_LOAD, file-backed bytes at 0x78..0x7c, larger in
    // memory than in the file.
    put_u32(&mut d, 0x40, 1);
    put_u64(&mut d, 0x40 + 8, 0x78); // p_offset
    put_u64(&mut d, 0x40 + 16, 0x400078); // p_vaddr
    put_u64(&mut d, 0x40 + 32, 4); // p_filesz
    put_u64(&mut d, 0x40 + 40, 8); // p_memsz
    // .text contents
    put_bytes(&mut d, 0x78, &[0xaa, 0xbb, 0xcc, 0xdd]);
    // Section-name string table.
    put_bytes(&mut d, 0x80, b"\0.text\0.shstrtab\0.symtab\0.strtab\0");
    // Symbol table: two 24-byte entries.
    put_u32(&mut d, 0xb0, 1); // name "foo"
    d[0xb0 + 4] = 0x12; // global, func
    put_u16(&mut d, 0xb0 + 6, 0); // undefined
    put_u32(&mut d, 0xc8, 5); // name "bar"
    d[0xc8 + 4] = 0x01; // local, object
    put_u16(&mut d, 0xc8 + 6, 1); // defined in .text
    put_u64(&mut d, 0xc8 + 8, 0x1000);
    put_u64(&mut d, 0xc8 + 16, 8);
    // Symbol-name string table.
    put_bytes(&mut d, 0xe0, b"\0foo\0bar\0");
    // Section headers.
    put_shdr(&mut d, 0x100, 0, 0, 0, 0, 0, 0, 0, 0);
    put_shdr(&mut d, 0x140, 1, 1, 6, 0x400078, 0x78, 4, 0, 0); // .text
    put_shdr(&mut d, 0x180, 7, 3, 0, 0, 0x80, 33, 0, 0); // .shstrtab
    put_shdr(&mut d, 0x1c0, 17, 2, 0, 0, 0xb0, 48, 4, 24); // .symtab
    put_shdr(&mut d, 0x200, 25, 3, 0, 0, 0xe0, 9, 0, 0); // .strtab
    d
}

#[test]
fn elf_parse_minimal() {
    let d = minimal_elf();
    let f = File::parse(&d).unwrap();
    assert_eq!(f.machine(), Machine::X86_64);
    assert!(f.is_little_endian());
}

#[test]
fn elf_unknown_machine_is_other() {
    let mut d = minimal_elf();
    put_u16(&mut d, 18, 9999);
    let f = File::parse(&d).unwrap();
    assert_eq!(f.machine(), Machine::Other);
}

#[test]
fn elf_section_kinds_and_names() {
    let d = minimal_elf();
    let f = File::parse(&d).unwrap();
    let mut it = f.sections();
    let mut count = 0;
    while let Some(sec) = it.next() {
        count += 1;
        if sec.name() == &Some(b".text".to_vec()) {
            assert_eq!(sec.kind(), SectionKind::Text);
            assert_eq!(sec.address(), 0x400078);
            assert_eq!(sec.data(), &[0xaa, 0xbb, 0xcc, 0xdd]);
            assert!(sec.segment_name().is_none());
        }
        if sec.name() == &Some(b".shstrtab".to_vec()) {
            assert_eq!(sec.kind(), SectionKind::Unknown);
        }
    }
    assert_eq!(count, 5);
}

#[test]
fn elf_section_data_by_name() {
    let d = minimal_elf();
    let f = File::parse(&d).unwrap();
    assert_eq!(f.section_data_by_name(b".text"), Some(&[0xaa_u8, 0xbb, 0xcc, 0xdd][..]));
    assert_eq!(f.section_data_by_name(b"missing"), None);
}

#[test]
fn elf_symbols() {
    let d = minimal_elf();
    let f = File::parse(&d).unwrap();
    let syms = f.symbols();
    assert_eq!(syms.len(), 2);
    let foo = &syms[0];
    assert_eq!(foo.name(), &Some(b"foo".to_vec()));
    assert_eq!(foo.kind(), SymbolKind::Text);
    assert!(foo.is_global());
    assert!(!foo.is_local());
    let bar = &syms[1];
    assert_eq!(bar.name(), &Some(b"bar".to_vec()));
    assert_eq!(bar.kind(), SymbolKind::Data);
    assert!(bar.is_local());
    assert_eq!(bar.address(), 0x1000);
    assert_eq!(bar.size(), 8);
    assert_eq!(bar.section_kind(), Some(SectionKind::Text));
    assert!(!bar.is_undefined());
}

#[test]
fn elf_undefined_symbol_reports_undefined() {
    let d = minimal_elf();
    let f = File::parse(&d).unwrap();
    let syms = f.symbols();
    let foo = &syms[0];
    assert!(foo.is_undefined());
    assert_eq!(foo.section_kind(), None);
}

#[test]
fn elf_segments_expose_file_backed_bytes() {
    let d = minimal_elf();
    let f = File::parse(&d).unwrap();
    let mut it = f.segments();
    let seg = it.next().unwrap();
    assert_eq!(seg.address(), 0x400078);
    assert_eq!(seg.size(), 8);
    assert_eq!(seg.data(), &[0xaa, 0xbb, 0xcc, 0xdd]);
    assert!(seg.name().is_none());
    assert!(it.next().is_none());
}

#[test]
fn elf_truncated_section_table_is_rejected() {
    let mut d = minimal_elf();
    put_u64(&mut d, 40, 0x10000); // e_shoff past the end
    assert!(matches!(
        File::parse(&d),
        Err(DecodeError::TruncatedOrOutOfBoundsTable)
    ));
}

#[test]
fn elf_truncated_section_data_is_rejected() {
    let mut d = minimal_elf();
    put_u64(&mut d, 0x140 + 24, 0x10000); // .text sh_offset past the end
    assert!(matches!(
        File::parse(&d),
        Err(DecodeError::TruncatedOrOutOfBoundsTable)
    ));
}

#[test]
fn elf_bad_class_is_malformed() {
    let mut d = minimal_elf();
    d[4] = 9;
    assert!(matches!(File::parse(&d), Err(DecodeError::MalformedHeader)));
}

#[test]
fn elf_big_endian_header() {
    // A bare 32-bit big-endian header with no tables at all: machine ARM
    // is stored big-endian at offset 18.
    let mut d = vec![0u8; 52];
    d[0] = 0x7f;
    d[1] = 0x45;
    d[2] = 0x4c;
    d[3] = 0x46;
    d[4] = 1; // 32-bit
    d[5] = 2; // big-endian
    d[18] = 0;
    d[19] = 40; // ARM
    let f = File::parse(&d).unwrap();
    assert_eq!(f.machine(), Machine::Arm);
    assert!(!f.is_little_endian());
    assert_eq!(f.symbols().len(), 0);
    let mut it = f.sections();
    assert!(it.next().is_none());
}
