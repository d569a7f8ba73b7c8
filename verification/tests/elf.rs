use jit::elf::{open_outcome, ReadElfError, ReadElfErrorCode};

#[test]
fn codes_name_their_errors() {
    assert_eq!(ReadElfErrorCode::from_code(0), None);
    assert_eq!(ReadElfErrorCode::from_code(1), Some(ReadElfErrorCode::CannotOpen));
    assert_eq!(ReadElfErrorCode::from_code(2), Some(ReadElfErrorCode::NotElf));
    assert_eq!(ReadElfErrorCode::from_code(3), Some(ReadElfErrorCode::WrongArch));
    assert_eq!(ReadElfErrorCode::from_code(4), Some(ReadElfErrorCode::BadFormat));
    assert_eq!(ReadElfErrorCode::from_code(5), Some(ReadElfErrorCode::Memory));
    assert_eq!(ReadElfErrorCode::from_code(6), None);
    assert_eq!(ReadElfErrorCode::Memory.code(), 5);
    assert_eq!(ReadElfErrorCode::from_code(ReadElfErrorCode::WrongArch.code()), Some(ReadElfErrorCode::WrongArch));
}

#[test]
fn errors_describe_themselves() {
    assert_eq!(ReadElfErrorCode::CannotOpen.description(), "Could not open the file");
    assert_eq!(ReadElfErrorCode::NotElf.description(), "Not an ELF-format binary");
    assert_eq!(ReadElfErrorCode::WrongArch.description(), "Wrong architecture for local system");
    assert_eq!(ReadElfErrorCode::BadFormat.description(), "ELF file, but badly formatted");
    assert_eq!(ReadElfErrorCode::Memory.description(), "Insufficient memory to load the file");
    let e = ReadElfError::new("libjit.so.0", ReadElfErrorCode::NotElf);
    assert_eq!(e.to_string(), "'libjit.so.0': Not an ELF-format binary");
    assert_eq!(e.get_filename(), "libjit.so.0");
    assert_eq!(e.get_error(), ReadElfErrorCode::NotElf);
}

#[test]
fn opening_succeeds_only_on_the_code_of_success() {
    assert!(open_outcome("/usr/lib/libjit.so.0", 0).is_ok());
    let err = open_outcome("/usr/lib/libjit.so.0", 1).unwrap_err();
    assert_eq!(err.get_error(), ReadElfErrorCode::CannotOpen);
    assert_eq!(err.to_string(), "'/usr/lib/libjit.so.0': Could not open the file");
    let err = open_outcome("a", 5).unwrap_err();
    assert_eq!(err.get_error(), ReadElfErrorCode::Memory);
}
