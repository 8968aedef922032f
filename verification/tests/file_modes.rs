use rsgit::path::FileMode;

#[test]
fn from_octal_slice() {
    assert_eq!(
        FileMode::from_octal_slice(b"100644").unwrap(),
        FileMode::Normal
    );
    assert_eq!(
        FileMode::from_octal_slice(b"100755").unwrap(),
        FileMode::Executable
    );
    assert_eq!(
        FileMode::from_octal_slice(b"120000").unwrap(),
        FileMode::SymbolicLink
    );
    assert_eq!(FileMode::from_octal_slice(b"40000").unwrap(), FileMode::Tree);
    assert_eq!(
        FileMode::from_octal_slice(b"040000").unwrap(),
        FileMode::Tree
    );
    assert_eq!(
        FileMode::from_octal_slice(b"160000").unwrap(),
        FileMode::Submodule
    );
    assert!(FileMode::from_octal_slice(b"160001").is_none());
    assert!(FileMode::from_octal_slice(b"0").is_none());
    assert!(FileMode::from_octal_slice(b"100643").is_none());
}

#[test]
fn from_value() {
    assert_eq!(FileMode::from_value(0o100644).unwrap(), FileMode::Normal);
    assert_eq!(
        FileMode::from_value(0o100755).unwrap(),
        FileMode::Executable
    );
    assert_eq!(
        FileMode::from_value(0o120000).unwrap(),
        FileMode::SymbolicLink
    );
    assert_eq!(FileMode::from_value(0o040000).unwrap(), FileMode::Tree);
    assert_eq!(FileMode::from_value(0o160000).unwrap(), FileMode::Submodule);
    assert!(FileMode::from_value(0o160001).is_none());
    assert!(FileMode::from_value(0).is_none());
    assert!(FileMode::from_value(0x100643).is_none());
}

#[test]
fn to_value() {
    assert_eq!(FileMode::to_value(FileMode::Normal), 0o100644);
    assert_eq!(FileMode::to_value(FileMode::Executable), 0o100755);
    assert_eq!(FileMode::to_value(FileMode::SymbolicLink), 0o120000);
    assert_eq!(FileMode::to_value(FileMode::Tree), 0o040000);
    assert_eq!(FileMode::to_value(FileMode::Submodule), 0o160000);
}
