use apifs::directory::DirContents;
use apifs::endpoint::{calculate_hash, FSEndPoint, FileKind, FsError, OWNER_GID, OWNER_UID, PERMISSIONS};
use apifs::timestamp::{convert_time, TimeSpec, Timestamp};
use std::collections::hash_map::DefaultHasher;
use std::hash::{Hash, Hasher};

fn at(secs: u64, nanos: u32) -> Timestamp {
    Timestamp { before_epoch: false, secs, nanos }
}

#[test]
fn inode_is_the_default_hash_of_the_path() {
    let mut hasher = DefaultHasher::new();
    "/users".hash(&mut hasher);
    assert_eq!(calculate_hash("/users"), hasher.finish());
    assert_ne!(calculate_hash("/users"), calculate_hash("/posts"));
}

#[test]
fn file_and_directory_at_one_path_share_their_inode() {
    let file = FSEndPoint::new_file("/users", "x".to_string());
    let dir = FSEndPoint::new_directory("/users", DirContents::new());
    let hash = calculate_hash("/users");
    match (file, dir) {
        (
            FSEndPoint::File { inode_number: a, contents, last_updated },
            FSEndPoint::Directory { inode_number: b, .. },
        ) => {
            assert_eq!(a, hash);
            assert_eq!(b, hash);
            assert_eq!(contents, "x");
            assert!(last_updated.nanos < 1_000_000_000);
        }
        _ => panic!("wrong kinds"),
    }
}

#[test]
fn new_endpoints_are_stamped_with_the_current_time() {
    match FSEndPoint::new_file("/t", String::new()) {
        FSEndPoint::File { last_updated: now, .. } => {
            assert!(!now.before_epoch);
            assert!(now.secs > 1_500_000_000);
            assert!(now.nanos < 1_000_000_000);
        }
        _ => panic!("not a file"),
    }
}

#[test]
fn convert_time_casts_to_signed_widths() {
    assert_eq!(convert_time(&at(12, 345)), TimeSpec { sec: 12, nsec: 345 });
    assert_eq!(convert_time(&at(u64::MAX, 999_999_999)), TimeSpec { sec: -1, nsec: 999_999_999 });
}

#[test]
fn file_attributes_report_byte_size_and_fixed_fields() {
    let file = FSEndPoint::File { last_updated: at(100, 5), inode_number: 42, contents: "héllo".to_string() };
    let attr = file.to_file_attr();
    assert_eq!(attr.ino, 42);
    assert_eq!(attr.size, 6);
    assert_eq!(attr.blocks, 0);
    assert_eq!(attr.kind, FileKind::RegularFile);
    let t = TimeSpec { sec: 100, nsec: 5 };
    assert_eq!((attr.atime, attr.mtime, attr.ctime, attr.crtime), (t, t, t, t));
    assert_eq!(attr.perm, 0o644);
    assert_eq!(PERMISSIONS, 0o644);
    assert_eq!(attr.nlink, 1);
    assert_eq!((attr.uid, attr.gid), (501, 20));
    assert_eq!((OWNER_UID, OWNER_GID), (501, 20));
    assert_eq!((attr.rdev, attr.flags), (0, 0));
}

#[test]
fn directory_attributes_report_size_zero() {
    let mut contents = DirContents::new();
    contents.insert("a".to_string(), 1);
    let dir = FSEndPoint::Directory { last_updated: at(7, 0), inode_number: 3, contents };
    let attr = dir.to_file_attr();
    assert_eq!(attr.ino, 3);
    assert_eq!(attr.size, 0);
    assert_eq!(attr.kind, FileKind::Directory);
    assert_eq!(attr.mtime, TimeSpec { sec: 7, nsec: 0 });
}

#[test]
fn contents_of_the_wrong_kind_are_refused() {
    let file = FSEndPoint::File { last_updated: at(0, 0), inode_number: 1, contents: "abc".to_string() };
    let dir = FSEndPoint::Directory { last_updated: at(0, 0), inode_number: 2, contents: DirContents::new() };
    assert_eq!(file.get_file_contents(), Ok("abc"));
    assert_eq!(file.get_dir_contents().err(), Some(FsError::NotADirectory));
    assert_eq!(dir.get_file_contents(), Err(FsError::NotAFile));
    assert_eq!(dir.get_dir_contents().map(|d| d.len()), Ok(0));
    assert_eq!(file.get_file_type(), FileKind::RegularFile);
    assert_eq!(dir.get_file_type(), FileKind::Directory);
}

#[test]
fn convert_time_keeps_the_order_of_times() {
    let times = [at(0, 0), at(0, 1), at(1, 0), at(1, 999_999_999), at(2, 0), at(i64::MAX as u64, 0)];
    for a in times.iter() {
        for b in times.iter() {
            let (sa, sb) = (convert_time(a), convert_time(b));
            let a_nanos = a.secs as i128 * 1_000_000_000 + a.nanos as i128;
            let b_nanos = b.secs as i128 * 1_000_000_000 + b.nanos as i128;
            assert_eq!((sa.sec, sa.nsec) <= (sb.sec, sb.nsec), a_nanos <= b_nanos);
            assert_eq!(sa == sb, a == b);
        }
    }
}
