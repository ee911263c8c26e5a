use object::DecodeError;
use object::File;

#[test]
fn unrecognized_leading_bytes_are_rejected() {
    let d = b"NOPE this is not an object file".to_vec();
    assert!(matches!(File::parse(&d), Err(DecodeError::UnrecognizedFormat)));
}

#[test]
fn empty_buffer_is_unrecognized() {
    let d: Vec<u8> = Vec::new();
    assert!(matches!(File::parse(&d), Err(DecodeError::UnrecognizedFormat)));
}

#[test]
fn single_byte_buffer_is_unrecognized() {
    let d = vec![0x4d];
    assert!(matches!(File::parse(&d), Err(DecodeError::UnrecognizedFormat)));
}

#[test]
fn elf_magic_alone_is_not_enough() {
    // The router matches the ELF magic, and the decoder then rejects the
    // truncated header rather than reading out of bounds.
    let d = vec![0x7f, 0x45, 0x4c, 0x46];
    assert!(matches!(File::parse(&d), Err(DecodeError::MalformedHeader)));
}

#[test]
fn mz_magic_alone_is_not_enough() {
    let d = vec![0x4d, 0x5a];
    assert!(matches!(File::parse(&d), Err(DecodeError::MalformedHeader)));
}
