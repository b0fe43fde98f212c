use apifs::directory::DirContents;
use apifs::endpoint::{FileKind, FsError};
use apifs::filesystem::DirEntry;
use apifs::timestamp::{TimeSpec, Timestamp};
use apifs::{ApiDefinition, ApiFS, BackendType, FSEndPoint};

fn at(secs: u64) -> Timestamp {
    Timestamp { before_epoch: false, secs, nanos: 0 }
}

fn definition() -> ApiDefinition {
    ApiDefinition {
        api_type: BackendType::REST,
        url: "http://localhost:8000".to_string(),
        endpoints: vec!["/users".to_string(), "/posts".to_string()],
    }
}

fn file(ino: u64, contents: &str) -> FSEndPoint {
    FSEndPoint::File { last_updated: at(1000 + ino), inode_number: ino, contents: contents.to_string() }
}

fn dir(ino: u64, entries: &[(&str, u64)]) -> FSEndPoint {
    let mut contents = DirContents::new();
    for (name, inode) in entries {
        contents.insert(name.to_string(), *inode);
    }
    FSEndPoint::Directory { last_updated: at(1000 + ino), inode_number: ino, contents }
}

/// Root 1 holds "users" (a directory, 2) and "readme" (a file, 3);
/// directory 2 holds "alice" (a file, 4).
fn sample() -> ApiFS {
    let mut fs = ApiFS::init("api.yml".to_string(), definition());
    fs.insert_endpoint(dir(1, &[("users", 2), ("readme", 3)]));
    fs.insert_endpoint(dir(2, &[("alice", 4)]));
    fs.insert_endpoint(file(3, "hello world"));
    fs.insert_endpoint(file(4, "{\"name\": \"alice\"}"));
    fs
}

fn view(entries: &[DirEntry]) -> Vec<(u64, i64, FileKind, String)> {
    entries.iter().map(|e| (e.ino, e.offset, e.kind, e.name.clone())).collect()
}

#[test]
fn init_holds_the_definition_and_no_endpoints() {
    let fs = ApiFS::init("api.yml".to_string(), definition());
    assert_eq!(fs.api_def_path(), "api.yml");
    assert_eq!(fs.api_definition().url, "http://localhost:8000");
    assert_eq!(fs.api_definition().endpoints, vec!["/users".to_string(), "/posts".to_string()]);
    assert_eq!(fs.getattr(1).err(), Some(FsError::MissingEndpoint));
    assert_eq!(fs.lookup(1, "users").err(), Some(FsError::MissingEndpoint));
}

#[test]
fn getattr_reports_the_endpoint() {
    let fs = sample();
    let attr = fs.getattr(3).unwrap();
    assert_eq!(attr.ino, 3);
    assert_eq!(attr.size, 11);
    assert_eq!(attr.kind, FileKind::RegularFile);
    assert_eq!(attr.atime, TimeSpec { sec: 1003, nsec: 0 });
    let attr = fs.getattr(2).unwrap();
    assert_eq!((attr.ino, attr.size, attr.kind), (2, 0, FileKind::Directory));
    assert_eq!(fs.getattr(99).err(), Some(FsError::MissingEndpoint));
}

#[test]
fn lookup_finds_names_in_directories() {
    let fs = sample();
    assert_eq!(fs.lookup(1, "users"), fs.getattr(2));
    assert_eq!(fs.lookup(1, "readme"), fs.getattr(3));
    assert_eq!(fs.lookup(2, "alice"), fs.getattr(4));
    assert_eq!(fs.lookup(1, "alice").err(), Some(FsError::MissingEntry));
    assert_eq!(fs.lookup(3, "x").err(), Some(FsError::NotADirectory));
    assert_eq!(fs.lookup(9, "x").err(), Some(FsError::MissingEndpoint));
}

#[test]
fn lookup_of_an_entry_whose_endpoint_is_missing() {
    let mut fs = sample();
    fs.insert_endpoint(dir(5, &[("ghost", 77)]));
    assert_eq!(fs.lookup(5, "ghost").err(), Some(FsError::MissingEndpoint));
}

#[test]
fn read_gives_the_bytes_from_the_offset() {
    let fs = sample();
    assert_eq!(fs.read(3, 0).unwrap(), b"hello world".to_vec());
    assert_eq!(fs.read(3, 6).unwrap(), b"world".to_vec());
    assert_eq!(fs.read(3, 11).unwrap(), Vec::<u8>::new());
    assert_eq!(fs.read(2, 0).err(), Some(FsError::NotAFile));
    assert_eq!(fs.read(9, 0).err(), Some(FsError::MissingEndpoint));
}

#[test]
fn read_counts_utf8_bytes() {
    let mut fs = ApiFS::init("p".to_string(), definition());
    fs.insert_endpoint(file(8, "é!"));
    assert_eq!(fs.read(8, 0).unwrap(), vec![0xc3, 0xa9, b'!']);
    assert_eq!(fs.read(8, 2).unwrap(), vec![b'!']);
    assert_eq!(fs.getattr(8).unwrap().size, 3);
}

#[test]
fn readdir_at_offset_zero_lists_from_the_third_entry() {
    let mut fs = sample();
    fs.insert_endpoint(dir(6, &[("a", 3), ("b", 4), ("c", 2), ("d", 3)]));
    assert_eq!(
        view(&fs.readdir(6, 0).unwrap()),
        vec![(2, 5, FileKind::Directory, "c".to_string()), (3, 6, FileKind::RegularFile, "d".to_string())]
    );
}

#[test]
fn readdir_adds_dot_entries_for_positive_offsets() {
    let mut fs = sample();
    fs.insert_endpoint(dir(6, &[("a", 3), ("b", 4), ("c", 2), ("d", 3)]));
    assert_eq!(
        view(&fs.readdir(6, 1).unwrap()),
        vec![(1, 2, FileKind::Directory, ".".to_string()), (3, 6, FileKind::RegularFile, "d".to_string())]
    );
    assert_eq!(
        view(&fs.readdir(6, 2).unwrap()),
        vec![(1, 2, FileKind::Directory, ".".to_string()), (1, 2, FileKind::Directory, "..".to_string())]
    );
    assert_eq!(
        view(&fs.readdir(6, 10).unwrap()),
        vec![(1, 2, FileKind::Directory, ".".to_string()), (1, 2, FileKind::Directory, "..".to_string())]
    );
}

#[test]
fn readdir_of_a_small_directory_lists_nothing_at_offset_zero() {
    let fs = sample();
    assert!(fs.readdir(1, 0).unwrap().is_empty());
    assert!(fs.readdir(2, 0).unwrap().is_empty());
}

#[test]
fn readdir_refuses_files_missing_inodes_and_missing_entries() {
    let mut fs = sample();
    assert_eq!(fs.readdir(3, 0).err(), Some(FsError::NotADirectory));
    assert_eq!(fs.readdir(9, 0).err(), Some(FsError::MissingEndpoint));
    fs.insert_endpoint(dir(7, &[("a", 3), ("b", 3), ("c", 3), ("lost", 55)]));
    assert_eq!(fs.readdir(7, 0).err(), Some(FsError::MissingEndpoint));
    assert_eq!(fs.readdir(7, 2).map(|e| e.len()), Ok(2));
}

#[test]
fn readdir_with_a_very_negative_offset_skips_everything() {
    let mut fs = sample();
    fs.insert_endpoint(dir(6, &[("a", 3), ("b", 4), ("c", 2)]));
    if std::mem::size_of::<usize>() == 8 {
        assert!(fs.readdir(6, -3).unwrap().is_empty());
    }
}

#[test]
fn inserting_replaces_the_endpoint_at_an_inode() {
    let mut fs = sample();
    let previous = fs.insert_endpoint(file(3, "new"));
    assert!(matches!(previous, Some(FSEndPoint::File { ref contents, .. }) if contents == "hello world"));
    assert_eq!(fs.getattr(3).unwrap().size, 3);
    assert_eq!(fs.read(3, 0).unwrap(), b"new".to_vec());
    assert!(fs.insert_endpoint(file(12, "")).is_none());
    assert_eq!(fs.getattr(12).unwrap().size, 0);
    assert_eq!(fs.getattr(4).unwrap().ino, 4);
}

#[test]
fn listed_entries_agree_with_lookup_and_getattr() {
    let mut fs = sample();
    fs.insert_endpoint(dir(6, &[("a", 3), ("b", 4), ("c", 2), ("d", 4)]));
    for entry in fs.readdir(6, 0).unwrap() {
        let attr = fs.getattr(entry.ino).unwrap();
        assert_eq!(attr.kind, entry.kind);
        assert_eq!(fs.lookup(6, &entry.name), Ok(attr));
    }
}

#[test]
fn read_length_agrees_with_size() {
    let fs = sample();
    let size = fs.getattr(4).unwrap().size;
    for offset in 0..=size as i64 {
        assert_eq!(fs.read(4, offset).unwrap().len() as u64 + offset as u64, size);
    }
}

#[test]
fn read_at_an_offset_is_the_tail_of_the_whole_file() {
    let fs = sample();
    let whole = fs.read(4, 0).unwrap();
    assert_eq!(whole, b"{\"name\": \"alice\"}".to_vec());
    for k in 0..=whole.len() {
        assert_eq!(fs.read(4, k as i64).unwrap(), whole[k..].to_vec());
    }
}

#[test]
fn listing_names_each_name_once_with_rising_offsets() {
    let mut fs = sample();
    fs.insert_endpoint(dir(6, &[("a", 3), ("b", 4), ("c", 2), ("d", 4), ("e", 3), ("a", 2)]));
    for offset in 0..4i64 {
        let listing = fs.readdir(6, offset).unwrap();
        let past_dots: Vec<&DirEntry> = listing.iter().filter(|e| e.name != "." && e.name != "..").collect();
        for (i, e) in past_dots.iter().enumerate() {
            assert!(e.offset > offset + 4);
            for later in &past_dots[i + 1..] {
                assert_ne!(e.name, later.name);
                assert!(e.offset < later.offset);
            }
        }
    }
}
