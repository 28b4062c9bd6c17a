use memtrace::fd::{fd_kind, fd_list, fd_number, FDType};

#[test]
fn descriptor_names() {
    assert_eq!(fd_number("0"), Some(0));
    assert_eq!(fd_number("255"), Some(255));
    assert_eq!(fd_number("4294967295"), Some(4294967295));
    assert_eq!(fd_number("4294967296"), None);
    assert_eq!(fd_number(""), None);
    assert_eq!(fd_number("12a"), None);
    assert_eq!(fd_number("."), None);
}

#[test]
fn descriptor_kinds() {
    assert_eq!(fd_kind("socket:[12345]"), FDType::SOCKET);
    assert_eq!(fd_kind("/dev/null"), FDType::FILE);
    assert_eq!(fd_kind("pipe:[99]"), FDType::OTHER);
    assert_eq!(fd_kind(""), FDType::OTHER);
}

#[test]
fn descriptor_list() {
    let entries = vec![
        ("0".to_string(), "/dev/pts/0".to_string()),
        ("3".to_string(), "socket:[1]".to_string()),
        (".".to_string(), "/proc".to_string()),
        ("4".to_string(), "anon_inode:[eventfd]".to_string()),
    ];
    let l = fd_list(&entries);
    assert_eq!(l.len(), 3);
    assert_eq!(l.get(&0), Some(&FDType::FILE));
    assert_eq!(l.get(&3), Some(&FDType::SOCKET));
    assert_eq!(l.get(&4), Some(&FDType::OTHER));
}
