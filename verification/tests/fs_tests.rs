use zero_os::ramfs::RamFs;
use zero_os::vfs::{FsError, FileType, FileSystem};
use zero_os::fs_init;

fn drive_any_filesystem<F: FileSystem>(fs: &mut F) -> Vec<u8> {
    fs.create_file("/tmp/t").unwrap();
    fs.write_file("/tmp/t", b"abc").unwrap();
    assert!(fs.path_exists("/tmp/t"));
    let ino = fs.stat("/tmp/t").unwrap();
    assert_eq!(ino.size, 3);
    assert_eq!(fs.list_dir("/tmp").unwrap().len(), 1);
    let data = fs.read_file("/tmp/t").unwrap();
    fs.remove("/tmp/t").unwrap();
    assert!(!fs.path_exists("/tmp/t"));
    data
}

#[test]
fn fresh_store_has_root() {
    let fs = RamFs::new();
    assert!(fs.path_exists("/"));
    assert!(!fs.path_exists("/a"));
}

#[test]
fn init_creates_standard_directories_in_order() {
    let fs = fs_init::init();
    let entries = fs.list_dir("/").unwrap();
    let names: Vec<&str> = entries.iter().map(|e| e.name.as_str()).collect();
    assert_eq!(names, ["home", "tmp", "bin"]);
    for e in &entries {
        assert_eq!(e.file_type, FileType::Directory);
        assert_eq!(e.size, 0);
    }
}

#[test]
fn root_handle_follows_initialization() {
    let empty: Option<RamFs> = None;
    assert!(fs_init::root(&empty).is_none());
    let slot = Some(fs_init::init());
    assert!(fs_init::root(&slot).is_some());
}

#[test]
fn create_file_then_exists_and_second_create_refused() {
    let mut fs = fs_init::init();
    assert!(fs.create_file("/tmp/a").is_ok());
    assert!(fs.path_exists("/tmp/a"));
    assert!(matches!(fs.create_file("/tmp/a"), Err(FsError::AlreadyExists)));
    assert!(matches!(fs.create_dir("/tmp/a"), Err(FsError::AlreadyExists)));
}

#[test]
fn create_dir_under_missing_parent_is_not_found() {
    let mut fs = fs_init::init();
    assert!(matches!(fs.create_dir("/missing/x"), Err(FsError::NotFound)));
}

#[test]
fn create_under_file_parent_is_not_a_directory() {
    let mut fs = fs_init::init();
    fs.create_file("/tmp/f").unwrap();
    assert!(matches!(fs.create_file("/tmp/f/child"), Err(FsError::NotADirectory)));
    assert!(matches!(fs.create_dir("/tmp/f/child"), Err(FsError::NotADirectory)));
}

#[test]
fn remove_nonempty_directory_refused_then_empty_succeeds() {
    let mut fs = fs_init::init();
    fs.create_dir("/tmp/d").unwrap();
    fs.create_file("/tmp/d/inner").unwrap();
    assert!(matches!(fs.remove("/tmp/d"), Err(FsError::PermissionDenied)));
    fs.remove("/tmp/d/inner").unwrap();
    fs.remove("/tmp/d").unwrap();
    let entries = fs.list_dir("/tmp").unwrap();
    assert!(entries.iter().all(|e| e.name != "d"));
    assert!(!fs.path_exists("/tmp/d"));
}

#[test]
fn remove_root_refused() {
    let mut fs = fs_init::init();
    assert!(matches!(fs.remove("/"), Err(FsError::PermissionDenied)));
    assert!(fs.path_exists("/"));
}

#[test]
fn remove_missing_is_not_found() {
    let mut fs = fs_init::init();
    assert!(matches!(fs.remove("/nope"), Err(FsError::NotFound)));
}

#[test]
fn write_before_create_is_not_found() {
    let mut fs = fs_init::init();
    assert!(matches!(fs.write_file("/tmp/ghost", b"hi"), Err(FsError::NotFound)));
}

#[test]
fn write_then_read_round_trip() {
    let mut fs = fs_init::init();
    fs.create_file("/home/data").unwrap();
    let payload: Vec<u8> = (0u8..=255).collect();
    fs.write_file("/home/data", &payload).unwrap();
    let back = fs.read_file("/home/data").unwrap();
    assert_eq!(back, payload);
}

#[test]
fn write_replaces_content() {
    let mut fs = fs_init::init();
    fs.create_file("/f").unwrap();
    fs.write_file("/f", b"first").unwrap();
    fs.write_file("/f", b"second!").unwrap();
    assert_eq!(fs.read_file("/f").unwrap(), b"second!");
}

#[test]
fn read_or_write_directory_is_not_a_file() {
    let mut fs = fs_init::init();
    assert!(matches!(fs.read_file("/tmp"), Err(FsError::NotAFile)));
    assert!(matches!(fs.write_file("/tmp", b"x"), Err(FsError::NotAFile)));
}

#[test]
fn list_file_is_not_a_directory() {
    let mut fs = fs_init::init();
    fs.create_file("/tmp/f").unwrap();
    assert!(matches!(fs.list_dir("/tmp/f"), Err(FsError::NotADirectory)));
}

#[test]
fn list_missing_is_not_found() {
    let fs = fs_init::init();
    assert!(matches!(fs.list_dir("/absent"), Err(FsError::NotFound)));
}

#[test]
fn stat_reports_name_type_size() {
    let mut fs = fs_init::init();
    fs.create_file("/tmp/report").unwrap();
    fs.write_file("/tmp/report", b"12345").unwrap();
    let ino = fs.stat("/tmp/report").unwrap();
    assert_eq!(ino.name, "report");
    assert_eq!(ino.file_type, FileType::File);
    assert_eq!(ino.size, 5);
    let dir = fs.stat("/tmp").unwrap();
    assert_eq!(dir.file_type, FileType::Directory);
    assert_eq!(dir.size, 1);
}

#[test]
fn stat_missing_is_not_found() {
    let fs = fs_init::init();
    assert!(matches!(fs.stat("/absent"), Err(FsError::NotFound)));
}

#[test]
fn operations_normalize_their_paths() {
    let mut fs = fs_init::init();
    fs.create_file("/tmp//x/").unwrap();
    assert!(fs.path_exists("/tmp/x"));
    fs.write_file("//tmp///x", b"v").unwrap();
    assert_eq!(fs.read_file("/tmp/x").unwrap(), b"v");
    fs.remove("/tmp/x//").unwrap();
    assert!(!fs.path_exists("/tmp/x"));
}

#[test]
fn listing_keeps_insertion_order() {
    let mut fs = fs_init::init();
    fs.create_file("/tmp/c").unwrap();
    fs.create_file("/tmp/a").unwrap();
    fs.create_dir("/tmp/b").unwrap();
    let entries = fs.list_dir("/tmp").unwrap();
    let names: Vec<&str> = entries.iter().map(|e| e.name.as_str()).collect();
    assert_eq!(names, ["c", "a", "b"]);
    assert_eq!(entries[2].file_type, FileType::Directory);
}

#[test]
fn filesystem_trait_round_trip() {
    let mut fs = fs_init::init();
    assert_eq!(drive_any_filesystem(&mut fs), b"abc");
}
