use object::DecodeError;
use object::File;
use object::Machine;
use object::SectionKind;

fn put_u32(d: &mut [u8], off: usize, v: u32) {
    d[off] = v as u8;
    d[off + 1] = (v >> 8) as u8;
    d[off + 2] = (v >> 16) as u8;
    d[off + 3] = (v >> 24) as u8;
}

fn put_u64(d: &mut [u8], off: usize, v: u64) {
    for i in 0..8 {
        d[off + i] = (v >> (8 * i)) as u8;
    }
}

fn put_bytes(d: &mut [u8], off: usize, s: &[u8]) {
    for (i, b) in s.iter().enumerate() {
        d[off + i] = *b;
    }
}

/// A minimal 64-bit little-endian Mach-O image for x86-64: one
/// `LC_SEGMENT_64` named `__TEXT` holding a `__text` section with four
/// file-backed bytes and a zero-filled `__bss` section.
fn minimal_macho() -> Vec<u8> {
    let hdr = 32;
    let cmdsize = 72 + 2 * 80;
    let total = hdr + cmdsize + 4;
    let mut d = vec![0u8; total];
    // Magic of a little-endian 64-bit image.
    put_bytes(&mut d, 0, &[0xcf, 0xfa, 0xed, 0xfe]);
    put_u32(&mut d, 4, 0x0100_0007); // cputype x86-64
    put_u32(&mut d, 16, 1); // ncmds
    put_u32(&mut d, 20, cmdsize as u32); // sizeofcmds
    let p = hdr;
    put_u32(&mut d, p, 0x19); // LC_SEGMENT_64
    put_u32(&mut d, p + 4, cmdsize as u32);
    put_bytes(&mut d, p + 8, b"__TEXT");
    put_u64(&mut d, p + 24, 0x1000); // vmaddr
    put_u64(&mut d, p + 32, 0x2000); // vmsize
    put_u64(&mut d, p + 40, 0); // fileoff
    put_u64(&mut d, p + 48, total as u64); // filesize
    put_u32(&mut d, p + 64, 2); // nsects
    // Section entry: __text
    let s1 = p + 72;
    put_bytes(&mut d, s1, b"__text");
    put_bytes(&mut d, s1 + 16, b"__TEXT");
    put_u64(&mut d, s1 + 32, 0x1000); // addr
    put_u64(&mut d, s1 + 40, 4); // size
    put_u32(&mut d, s1 + 48, (hdr + cmdsize) as u32); // offset
    put_u32(&mut d, s1 + 64, 0x8000_0400); // instructions attributes
    // Section entry: __bss, zero-filled
    let s2 = s1 + 80;
    put_bytes(&mut d, s2, b"__bss");
    put_bytes(&mut d, s2 + 16, b"__TEXT");
    put_u64(&mut d, s2 + 32, 0x3000);
    put_u64(&mut d, s2 + 40, 8);
    put_u32(&mut d, s2 + 48, 0);
    put_u32(&mut d, s2 + 64, 1); // S_ZEROFILL
    // __text contents
    put_bytes(&mut d, hdr + cmdsize, &[0xde, 0xad, 0xbe, 0xef]);
    d
}

#[test]
fn macho_parse_minimal() {
    let d = minimal_macho();
    let f = File::parse(&d).unwrap();
    assert_eq!(f.machine(), Machine::X86_64);
    assert!(f.is_little_endian());
    assert_eq!(f.symbols().len(), 0);
}

#[test]
fn macho_sections() {
    let d = minimal_macho();
    let f = File::parse(&d).unwrap();
    let mut it = f.sections();
    let text = it.next().unwrap();
    assert_eq!(text.name(), &Some(b"__text".to_vec()));
    assert_eq!(text.segment_name(), &Some(b"__TEXT".to_vec()));
    assert_eq!(text.kind(), SectionKind::Text);
    assert_eq!(text.address(), 0x1000);
    assert_eq!(text.size(), 4);
    assert_eq!(text.data(), &[0xde, 0xad, 0xbe, 0xef]);
    let bss = it.next().unwrap();
    assert_eq!(bss.name(), &Some(b"__bss".to_vec()));
    assert_eq!(bss.kind(), SectionKind::UninitializedData);
    assert_eq!(bss.data().len(), 0);
    assert_eq!(bss.size(), 8);
    assert!(it.next().is_none());
}

#[test]
fn macho_segments() {
    let d = minimal_macho();
    let f = File::parse(&d).unwrap();
    let mut it = f.segments();
    let seg = it.next().unwrap();
    assert_eq!(seg.name(), &Some(b"__TEXT".to_vec()));
    assert_eq!(seg.address(), 0x1000);
    assert_eq!(seg.size(), 0x2000);
    assert_eq!(seg.data().len(), d.len());
    assert!(it.next().is_none());
}

#[test]
fn macho_section_data_by_name() {
    let d = minimal_macho();
    let f = File::parse(&d).unwrap();
    assert_eq!(
        f.section_data_by_name(b"__text"),
        Some(&[0xde_u8, 0xad, 0xbe, 0xef][..])
    );
    assert_eq!(f.section_data_by_name(b"missing"), None);
}

#[test]
fn macho_unknown_cputype_is_other() {
    let mut d = minimal_macho();
    put_u32(&mut d, 4, 0x1234);
    let f = File::parse(&d).unwrap();
    assert_eq!(f.machine(), Machine::Other);
}

#[test]
fn macho_truncated_commands_are_rejected() {
    let mut d = minimal_macho();
    put_u32(&mut d, 20, 0x10000); // sizeofcmds past the end
    assert!(matches!(
        File::parse(&d),
        Err(DecodeError::TruncatedOrOutOfBoundsTable)
    ));
}

#[test]
fn macho_truncated_section_data_is_rejected() {
    let mut d = minimal_macho();
    // __text claims file-backed bytes past the end of the buffer.
    put_u32(&mut d, 32 + 72 + 48, 0x10000);
    assert!(matches!(
        File::parse(&d),
        Err(DecodeError::TruncatedOrOutOfBoundsTable)
    ));
}

#[test]
fn macho_fat_container_is_rejected() {
    // A fat container is recognized as Mach-O by the router, but it is an
    // archive of images, not a single object file.
    let mut d = vec![0u8; 32];
    put_bytes(&mut d, 0, &[0xca, 0xfe, 0xba, 0xbe]);
    assert!(matches!(File::parse(&d), Err(DecodeError::MalformedHeader)));
}

#[test]
fn macho_big_endian_header() {
    // A bare 32-bit big-endian image with no load commands: cputype ARM,
    // stored big-endian.
    let mut d = vec![0u8; 28];
    put_bytes(&mut d, 0, &[0xfe, 0xed, 0xfa, 0xce]);
    put_bytes(&mut d, 4, &[0, 0, 0, 12]); // cputype ARM, big-endian
    let f = File::parse(&d).unwrap();
    assert_eq!(f.machine(), Machine::Arm);
    assert!(!f.is_little_endian());
    let mut it = f.sections();
    assert!(it.next().is_none());
}
