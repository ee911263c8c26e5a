use object::DecodeError;
use object::File;
use object::Machine;
use object::SectionKind;

fn put_u16(d: &mut [u8], off: usize, v: u16) {
    d[off] = v as u8;
    d[off + 1] = (v >> 8) as u8;
}

fn put_u32(d: &mut [u8], off: usize, v: u32) {
    d[off] = v as u8;
    d[off + 1] = (v >> 8) as u8;
    d[off + 2] = (v >> 16) as u8;
    d[off + 3] = (v >> 24) as u8;
}

fn put_section(
    d: &mut [u8],
    off: usize,
    name: &[u8],
    vsize: u32,
    vaddr: u32,
    rawsz: u32,
    rawptr: u32,
    characteristics: u32,
) {
    for (i, b) in name.iter().enumerate() {
        d[off + i] = *b;
    }
    put_u32(d, off + 8, vsize);
    put_u32(d, off + 12, vaddr);
    put_u32(d, off + 16, rawsz);
    put_u32(d, off + 20, rawptr);
    put_u32(d, off + 36, characteristics);
}

/// A minimal PE image: COFF header for x86-64 and three sections — an
/// executable `.text`, an initialized-data `.data`, and an
/// uninitialized-data `.bss`.
fn minimal_pe() -> Vec<u8> {
    let mut d = vec![0u8; 0x150];
    d[0] = 0x4d;
    d[1] = 0x5a;
    put_u32(&mut d, 0x3c, 0x40);
    d[0x40] = 0x50;
    d[0x41] = 0x45;
    put_u16(&mut d, 0x44, 0x8664);
    put_u16(&mut d, 0x46, 3);
    put_u16(&mut d, 0x54, 0);
    put_section(&mut d, 0x58, b".text", 4, 0x1000, 4, 0x100, 0x6000_0020);
    put_section(&mut d, 0x80, b".data", 4, 0x2000, 4, 0x104, 0xc000_0040);
    put_section(&mut d, 0xa8, b".bss", 8, 0x3000, 0, 0, 0xc000_0080);
    d[0x100] = 1;
    d[0x101] = 2;
    d[0x102] = 3;
    d[0x103] = 4;
    d[0x104] = 9;
    d[0x105] = 8;
    d[0x106] = 7;
    d[0x107] = 6;
    d
}

#[test]
fn pe_parse_minimal() {
    let d = minimal_pe();
    let f = File::parse(&d).unwrap();
    assert_eq!(f.machine(), Machine::X86_64);
    assert!(f.is_little_endian());
    assert_eq!(f.symbols().len(), 0);
}

#[test]
fn pe_machine_x86() {
    let mut d = minimal_pe();
    put_u16(&mut d, 0x44, 0x014c);
    let f = File::parse(&d).unwrap();
    assert_eq!(f.machine(), Machine::X86);
}

#[test]
fn pe_unknown_machine_is_other() {
    let mut d = minimal_pe();
    put_u16(&mut d, 0x44, 0x1234);
    let f = File::parse(&d).unwrap();
    assert_eq!(f.machine(), Machine::Other);
}

#[test]
fn pe_section_kinds() {
    let d = minimal_pe();
    let f = File::parse(&d).unwrap();
    let mut it = f.sections();
    let mut names: Vec<Vec<u8>> = Vec::new();
    let mut kinds: Vec<SectionKind> = Vec::new();
    let mut text_count = 0;
    while let Some(sec) = it.next() {
        names.push(sec.name().clone().unwrap());
        kinds.push(sec.kind());
        if sec.kind() == SectionKind::Text {
            text_count += 1;
        }
    }
    assert_eq!(names, vec![b".text".to_vec(), b".data".to_vec(), b".bss".to_vec()]);
    assert_eq!(
        kinds,
        vec![SectionKind::Text, SectionKind::Data, SectionKind::UninitializedData]
    );
    assert_eq!(text_count, 1);
}

#[test]
fn pe_section_data_matches_declared_size() {
    let d = minimal_pe();
    let f = File::parse(&d).unwrap();
    let mut it = f.sections();
    while let Some(sec) = it.next() {
        if sec.name() == &Some(b".text".to_vec()) {
            assert_eq!(sec.data().len(), 4);
            assert_eq!(sec.data(), &[1, 2, 3, 4]);
        }
        if sec.name() == &Some(b".bss".to_vec()) {
            assert_eq!(sec.data().len(), 0);
            assert_eq!(sec.size(), 8);
        }
    }
}

#[test]
fn pe_section_data_by_name() {
    let d = minimal_pe();
    let f = File::parse(&d).unwrap();
    assert_eq!(f.section_data_by_name(b".text"), Some(&[1u8, 2, 3, 4][..]));
    assert_eq!(f.section_data_by_name(b".data"), Some(&[9u8, 8, 7, 6][..]));
}

#[test]
fn pe_missing_section_is_none() {
    let d = minimal_pe();
    let f = File::parse(&d).unwrap();
    assert_eq!(f.section_data_by_name(b"missing"), None);
}

#[test]
fn pe_kind_is_deterministic() {
    let d = minimal_pe();
    let f = File::parse(&d).unwrap();
    let mut it = f.sections();
    while let Some(sec) = it.next() {
        assert_eq!(sec.kind(), sec.kind());
    }
    // Re-deriving the classification from a second parse of the same
    // buffer gives the same kinds in the same order.
    let f2 = File::parse(&d).unwrap();
    let mut a = f.sections();
    let mut b = f2.sections();
    loop {
        match (a.next(), b.next()) {
            (Some(x), Some(y)) => assert_eq!(x.kind(), y.kind()),
            (None, None) => break,
            _ => panic!("section counts differ"),
        }
    }
}

#[test]
fn pe_segments_are_sections() {
    let d = minimal_pe();
    let f = File::parse(&d).unwrap();
    let mut it = f.segments();
    let first = it.next().unwrap();
    assert_eq!(first.name(), &Some(b".text".to_vec()));
    assert_eq!(first.address(), 0x1000);
    assert_eq!(first.size(), 4);
    assert_eq!(first.data(), &[1, 2, 3, 4]);
    assert!(it.next().is_some());
    assert!(it.next().is_some());
    assert!(it.next().is_none());
}

#[test]
fn pe_truncated_section_data_is_rejected() {
    let mut d = minimal_pe();
    // .text claims raw data far past the end of the buffer.
    put_u32(&mut d, 0x58 + 20, 0x10000);
    assert!(matches!(
        File::parse(&d),
        Err(DecodeError::TruncatedOrOutOfBoundsTable)
    ));
}

#[test]
fn pe_truncated_section_table_is_rejected() {
    let mut d = minimal_pe();
    // The header claims far more sections than the buffer holds.
    put_u16(&mut d, 0x46, 1000);
    assert!(matches!(
        File::parse(&d),
        Err(DecodeError::TruncatedOrOutOfBoundsTable)
    ));
}

#[test]
fn pe_missing_signature_is_malformed() {
    let mut d = minimal_pe();
    d[0x41] = 0x51;
    assert!(matches!(File::parse(&d), Err(DecodeError::MalformedHeader)));
}
