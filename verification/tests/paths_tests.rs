use zero_os::vfs::{VFS, FsError, FileType, OpenOptions};

#[test]
fn normalize_empty_is_root() {
    assert_eq!(VFS::normalize_path(""), "/");
}

#[test]
fn normalize_relative_is_root() {
    // a non-absolute path collapses to the root
    assert_eq!(VFS::normalize_path("a/b"), "/");
}

#[test]
fn normalize_collapses_separators() {
    assert_eq!(VFS::normalize_path("/a//b/"), "/a/b");
}

#[test]
fn normalize_root_stays_root() {
    assert_eq!(VFS::normalize_path("/"), "/");
    assert_eq!(VFS::normalize_path("///"), "/");
}

#[test]
fn normalize_plain_path() {
    assert_eq!(VFS::normalize_path("/a"), "/a");
    assert_eq!(VFS::normalize_path("/home/user/file.txt"), "/home/user/file.txt");
}

#[test]
fn normalize_is_idempotent_on_samples() {
    for p in ["", "/", "a/b", "/a//b/", "//x///y//", "/tmp/", "weird//", "/a/b/c"] {
        let once = VFS::normalize_path(p);
        let twice = VFS::normalize_path(&once);
        assert_eq!(once, twice);
    }
}

#[test]
fn parent_of_root_is_none() {
    assert_eq!(VFS::parent_path("/"), None);
}

#[test]
fn parent_of_single_segment_is_root() {
    assert_eq!(VFS::parent_path("/a"), Some(String::from("/")));
}

#[test]
fn parent_of_nested_path() {
    assert_eq!(VFS::parent_path("/a/b"), Some(String::from("/a")));
    assert_eq!(VFS::parent_path("/a/b/c"), Some(String::from("/a/b")));
}

#[test]
fn parent_normalizes_first() {
    assert_eq!(VFS::parent_path("/a//b/"), Some(String::from("/a")));
}

#[test]
fn filename_cases() {
    assert_eq!(VFS::filename("/a/b"), Some(String::from("b")));
    assert_eq!(VFS::filename("/a"), Some(String::from("a")));
    assert_eq!(VFS::filename("/"), None);
    assert_eq!(VFS::filename("/x//y///"), Some(String::from("y")));
}

#[test]
fn error_messages() {
    assert_eq!(FsError::NotFound.message(), "No such file or directory");
    assert_eq!(FsError::AlreadyExists.message(), "File or directory already exists");
    assert_eq!(FsError::NotADirectory.message(), "Not a directory");
    assert_eq!(FsError::NotAFile.message(), "Not a file");
    assert_eq!(FsError::InvalidPath.message(), "Invalid path");
    assert_eq!(FsError::NoSpace.message(), "No space left");
    assert_eq!(FsError::PermissionDenied.message(), "Permission denied");
}

#[test]
fn open_options_builder() {
    let o = OpenOptions::new();
    assert!(!o.read && !o.write && !o.create && !o.truncate);
    let o = OpenOptions::new().read(true).write(true).create(true).truncate(true);
    assert!(o.read && o.write && o.create && o.truncate);
    let o = OpenOptions::new().write(true);
    assert!(!o.read && o.write && !o.create && !o.truncate);
}

#[test]
fn file_type_distinguishes() {
    assert_ne!(FileType::File, FileType::Directory);
}
