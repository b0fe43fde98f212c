//! What holds across the filesystem's answers.
use crate::directory::{lemma_listed_name_found, lookup_entry, names_distinct};
use crate::endpoint::{FSEndPoint, FileAttributes, FileKind, FsError};
use crate::filesystem::{
    attr_result, dot_entries, listed_entries, lookup_result, read_in_range, read_result,
    read_start, readdir_result, skip_count, table_wf, DirEntryView,
};
use crate::timestamp::TimeSpec;
use vstd::prelude::*;
use vstd::utf8::encode_utf8;

verus! {

/// A lookup of a name in a directory is answered as a request for the
/// attributes of the inode that the directory gives the name; a name the
/// directory lacks is answered `MissingEntry`.
pub proof fn lookup_agrees_with_getattr(table: Map<u64, FSEndPoint>, parent: u64, name: Seq<char>)
    requires
        table.contains_key(parent),
        table[parent] is Directory,
    ensures
        table[parent] matches FSEndPoint::Directory { contents, .. } && match lookup_entry(
            contents@,
            name,
        ) {
            Some(ino) => lookup_result(table, parent, name) == attr_result(table, ino),
            None => lookup_result(table, parent, name) == Err::<FileAttributes, FsError>(
                FsError::MissingEntry,
            ),
        },
{
}

/// The attributes reported for an inode carry that inode.
pub proof fn getattr_reports_its_inode(table: Map<u64, FSEndPoint>, ino: u64)
    requires
        table_wf(table),
    ensures
        attr_result(table, ino) matches Ok(attr) ==> attr.ino == ino,
{
    if table.contains_key(ino) {
        assert(table[ino].inode() == ino);
    }
}

/// Once an endpoint is filed, its inode is answered with its attributes,
/// and every other inode as before.
pub proof fn inserted_endpoint_is_reported(
    table: Map<u64, FSEndPoint>,
    endpoint: FSEndPoint,
    ino: u64,
)
    ensures
        attr_result(table.insert(endpoint.inode(), endpoint), ino) == if ino == endpoint.inode() {
            Ok::<FileAttributes, FsError>(endpoint.attributes())
        } else {
            attr_result(table, ino)
        },
{
}

/// A read of a file at an offset within it gives as many bytes as the
/// reported size exceeds the offset; a read at offset 0 gives the whole
/// file.
pub proof fn read_agrees_with_size(table: Map<u64, FSEndPoint>, ino: u64, offset: i64)
    requires
        table.contains_key(ino),
        table[ino] is File,
        read_in_range(table, ino, offset),
        table[ino] matches FSEndPoint::File { contents, .. } && encode_utf8(contents@).len()
            <= usize::MAX,
    ensures
        read_result(table, ino, offset) matches Ok(bytes) && attr_result(table, ino) matches Ok(
            attr,
        ) && bytes.len() + read_start(offset) == attr.size,
        table[ino] matches FSEndPoint::File { contents, .. } && read_result(table, ino, 0) == Ok::<
            Seq<u8>,
            FsError,
        >(encode_utf8(contents@)),
{
    if let FSEndPoint::File { contents, .. } = table[ino] {
        let bytes = encode_utf8(contents@);
        assert(bytes.subrange(0, bytes.len() as int) =~= bytes);
    }
}

/// A read of a file at an offset within it gives the tail, from that
/// offset, of what a read at offset 0 gives: the file's UTF-8 bytes.
pub proof fn read_is_tail_of_whole_file(table: Map<u64, FSEndPoint>, ino: u64, offset: i64)
    requires
        table.contains_key(ino),
        table[ino] is File,
        read_in_range(table, ino, offset),
    ensures
        table[ino] matches FSEndPoint::File { contents, .. } && read_result(table, ino, 0)
            == Ok::<Seq<u8>, FsError>(encode_utf8(contents@)),
        read_result(table, ino, 0) matches Ok(whole) && read_result(table, ino, offset) == Ok::<
            Seq<u8>,
            FsError,
        >(whole.subrange(read_start(offset), whole.len() as int)),
{
    if let FSEndPoint::File { contents, .. } = table[ino] {
        let bytes = encode_utf8(contents@);
        assert(bytes.subrange(0, bytes.len() as int) =~= bytes);
    }
}

/// Past "." and "..", a listing names each name once, with offsets that
/// rise with the position and, for an offset of 0 or more that fits a
/// `usize`, lie above the offset plus 4.
pub proof fn listing_names_once_in_order(
    table: Map<u64, FSEndPoint>,
    ino: u64,
    offset: i64,
    k1: int,
    k2: int,
)
    requires
        table_wf(table),
        readdir_result(table, ino, offset) is Ok,
        dot_entries(offset).len() <= k1 < k2 < readdir_result(table, ino, offset)->Ok_0.len(),
    ensures
        ({
            let listing = readdir_result(table, ino, offset)->Ok_0;
            &&& listing[k1].name != listing[k2].name
            &&& listing[k1].offset < listing[k2].offset
            &&& 0 <= offset <= usize::MAX ==> listing[k1].offset > offset + 4
        }),
{
    assert(table.contains_key(ino));
    if let FSEndPoint::Directory { contents, .. } = table[ino] {
        let entries = contents@;
        let skip = skip_count(offset);
        let d = dot_entries(offset).len() as int;
        let listing = readdir_result(table, ino, offset)->Ok_0;
        let listed = listed_entries(table, entries, skip);
        assert(listing == dot_entries(offset) + listed);
        assert(listing[k1] == listed[k1 - d]);
        assert(listing[k2] == listed[k2 - d]);
        let i1 = skip + (k1 - d);
        let i2 = skip + (k2 - d);
        assert(contents.inv());
        assert(entries[i1].0 != entries[i2].0);
        if 0 <= offset <= usize::MAX {
            assert(skip == offset + 2);
        }
    }
}

/// Each entry that a listing gives past "." and ".." names an endpoint of
/// the kind it reports, and a lookup of its name in the listed directory
/// answers as a request for the attributes of its inode.
pub proof fn listed_entry_agrees_with_lookup(
    table: Map<u64, FSEndPoint>,
    ino: u64,
    offset: i64,
    k: int,
)
    requires
        table_wf(table),
        readdir_result(table, ino, offset) is Ok,
        dot_entries(offset).len() <= k < readdir_result(table, ino, offset)->Ok_0.len(),
    ensures
        ({
            let entry = readdir_result(table, ino, offset)->Ok_0[k];
            &&& attr_result(table, entry.ino) matches Ok(attr) && attr.kind == entry.kind
                && attr.ino == entry.ino
            &&& lookup_result(table, ino, entry.name) == attr_result(table, entry.ino)
        }),
{
    assert(table.contains_key(ino));
    if let FSEndPoint::Directory { contents, .. } = table[ino] {
        let entries = contents@;
        let skip = skip_count(offset);
        let d = dot_entries(offset).len() as int;
        let listing = readdir_result(table, ino, offset)->Ok_0;
        let listed = listed_entries(table, entries, skip);
        assert(listing == dot_entries(offset) + listed);
        assert(listing[k] == listed[k - d]);
        let i = skip + (k - d);
        assert(table.contains_key(entries[i].1));
        assert(names_distinct(entries));
        lemma_listed_name_found(entries, i);
        assert(table[entries[i].1].inode() == entries[i].1);
    }
}

/// Every endpoint, file or directory, is reported with permissions 0o644,
/// owner 501, group 20, one link, and zero blocks, rdev and flags; with its
/// own inode and kind; with its UTF-8 byte length as size if a file and 0
/// if a directory; and with its update time as all four times.
pub proof fn attributes_of_every_endpoint(endpoint: FSEndPoint)
    ensures
        ({
            let attr = endpoint.attributes();
            let (ino, kind, size, time) = match endpoint {
                FSEndPoint::File { last_updated, inode_number, contents } => (
                    inode_number,
                    FileKind::RegularFile,
                    (encode_utf8(contents@).len() as usize) as u64,
                    last_updated,
                ),
                FSEndPoint::Directory { last_updated, inode_number, .. } => (
                    inode_number,
                    FileKind::Directory,
                    0u64,
                    last_updated,
                ),
            };
            let spec_time = TimeSpec { sec: time.secs as i64, nsec: time.nanos as i32 };
            &&& attr.perm == 0o644
            &&& attr.uid == 501
            &&& attr.gid == 20
            &&& attr.nlink == 1
            &&& attr.blocks == 0
            &&& attr.rdev == 0
            &&& attr.flags == 0
            &&& attr.ino == ino
            &&& attr.kind == kind
            &&& attr.size == size
            &&& attr.atime == spec_time
            &&& attr.mtime == spec_time
            &&& attr.ctime == spec_time
            &&& attr.crtime == spec_time
        }),
{
}

/// A read of a file at any offset from 0 to its UTF-8 length that fits a
/// `usize` is allowed, and gives exactly the bytes from that offset to the
/// end: as many as the length exceeds the offset, byte `j` being the file's
/// byte `offset + j`.
pub proof fn read_gives_bytes_from_offset(table: Map<u64, FSEndPoint>, ino: u64, offset: i64)
    requires
        table.contains_key(ino),
        table[ino] matches FSEndPoint::File { contents, .. } && 0 <= offset <= encode_utf8(
            contents@,
        ).len(),
        offset <= usize::MAX,
    ensures
        read_in_range(table, ino, offset),
        table[ino] matches FSEndPoint::File { contents, .. } && read_result(table, ino, offset) matches Ok(
            bytes,
        ) && {
            let file = encode_utf8(contents@);
            &&& bytes.len() == file.len() - offset
            &&& forall|j: int| 0 <= j < bytes.len() ==> #[trigger] bytes[j] == file[offset + j]
        },
{
    assert(read_start(offset) == offset);
}

/// A listing of a directory at an offset of 0 or more succeeds exactly when
/// every entry from position offset + 2 on names an endpoint, and fails
/// with `MissingEndpoint` otherwise. It then holds "." if the offset is
/// above 0 and ".." if above 1, each with inode 1, offset 2 and kind
/// directory; after them, one entry for every position from offset + 2 to
/// the end of the directory, in order, with the inode and name held there,
/// the position plus 3 as offset, and the kind of the endpoint it names;
/// and nothing more.
pub proof fn readdir_lists_every_entry_from_offset(
    table: Map<u64, FSEndPoint>,
    ino: u64,
    offset: i64,
)
    requires
        table.contains_key(ino),
        table[ino] is Directory,
        0 <= offset,
        offset + 2 <= usize::MAX,
    ensures
        table[ino] matches FSEndPoint::Directory { contents, .. } && {
            let entries = contents@;
            let start = offset + 2;
            let dots: int = (if offset > 0 {
                1int
            } else {
                0int
            }) + (if offset > 1 {
                1int
            } else {
                0int
            });
            let present = forall|i: int|
                start <= i < entries.len() ==> table.contains_key(#[trigger] entries[i].1);
            &&& readdir_result(table, ino, offset) is Ok <==> present
            &&& !present ==> readdir_result(table, ino, offset) == Err::<
                Seq<DirEntryView>,
                FsError,
            >(FsError::MissingEndpoint)
            &&& readdir_result(table, ino, offset) matches Ok(listing) ==> {
                &&& listing.len() == dots + if start < entries.len() {
                    entries.len() - start
                } else {
                    0
                }
                &&& offset > 0 ==> listing[0] == DirEntryView {
                    ino: 1,
                    offset: 2,
                    kind: FileKind::Directory,
                    name: seq!['.'],
                }
                &&& offset > 1 ==> listing[1] == DirEntryView {
                    ino: 1,
                    offset: 2,
                    kind: FileKind::Directory,
                    name: seq!['.', '.'],
                }
                &&& forall|i: int|
                    start <= i < entries.len() ==> #[trigger] listing[dots + i - start]
                        == DirEntryView {
                        ino: entries[i].1,
                        offset: (i + 3) as i64,
                        kind: match table[entries[i].1] {
                            FSEndPoint::File { .. } => FileKind::RegularFile,
                            FSEndPoint::Directory { .. } => FileKind::Directory,
                        },
                        name: entries[i].0,
                    }
            }
        },
{
    let skip = skip_count(offset);
    assert(skip == offset + 2);
    if let FSEndPoint::Directory { contents, .. } = table[ino] {
        let entries = contents@;
        let d = dot_entries(offset).len() as int;
        assert(d == (if offset > 0 { 1int } else { 0int }) + (if offset > 1 { 1int } else { 0int }));
        if readdir_result(table, ino, offset) is Ok {
            let listing = readdir_result(table, ino, offset)->Ok_0;
            let listed = listed_entries(table, entries, skip);
            assert(listing == dot_entries(offset) + listed);
            assert forall|i: int| skip <= i < entries.len() implies #[trigger] listing[d + i - skip]
                == DirEntryView {
                ino: entries[i].1,
                offset: (i + 3) as i64,
                kind: match table[entries[i].1] {
                    FSEndPoint::File { .. } => FileKind::RegularFile,
                    FSEndPoint::Directory { .. } => FileKind::Directory,
                },
                name: entries[i].0,
            } by {
                assert(listing[d + i - skip] == listed[i - skip]);
            }
        }
    }
}

} // verus!
