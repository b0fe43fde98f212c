//! Filesystem endpoints: the files and directories that mirror the API, and
//! the attributes that the filesystem reports for them.
use crate::directory::DirContents;
use crate::timestamp::{convert_time, current_time, timespec_of, TimeSpec, Timestamp};
use std::collections::hash_map::DefaultHasher;
use std::hash::{Hash, Hasher};
use vstd::prelude::*;
use vstd::std_specs::hash::DefaultHasherAdditionalSpecFns;
use vstd::utf8::encode_utf8;

verus! {

/// The kind of an endpoint as the kernel sees it.
#[derive(Clone, Copy, Debug, PartialEq, Eq, Structural)]
pub enum FileKind {
    RegularFile,
    Directory,
}

/// The attributes of an endpoint, field for field those that the kernel
/// interface reports for a file.
#[derive(Clone, Copy, Debug, PartialEq, Eq, Structural)]
pub struct FileAttributes {
    pub ino: u64,
    pub size: u64,
    pub blocks: u64,
    pub atime: TimeSpec,
    pub mtime: TimeSpec,
    pub ctime: TimeSpec,
    pub crtime: TimeSpec,
    pub kind: FileKind,
    pub perm: u16,
    pub nlink: u32,
    pub uid: u32,
    pub gid: u32,
    pub rdev: u32,
    pub flags: u32,
}

/// Why a filesystem request found nothing to answer with.
#[derive(Clone, Copy, Debug, PartialEq, Eq, Structural)]
pub enum FsError {
    /// No endpoint has the inode asked for.
    MissingEndpoint,
    /// The directory holds no entry of the name asked for.
    MissingEntry,
    /// The endpoint is a file where a directory was needed.
    NotADirectory,
    /// The endpoint is a directory where a file was needed.
    NotAFile,
}

/// A file or a directory of the filesystem.
pub enum FSEndPoint {
    File { last_updated: Timestamp, inode_number: u64, contents: String },
    Directory { last_updated: Timestamp, inode_number: u64, contents: DirContents },
}

/// The writes that a `DefaultHasher` holds once `path` is hashed into a
/// hasher that held `writes`.
pub uninterp spec fn str_hash_writes(writes: Seq<Seq<u8>>, path: Seq<char>) -> Seq<Seq<u8>>;

/// The inode number of the endpoint at `path`: the hash of the path by a
/// fresh `DefaultHasher`.
pub open spec fn path_inode(path: Seq<char>) -> u64 {
    DefaultHasher::spec_finish(str_hash_writes(Seq::empty(), path))
}

/// Hashes `path` into `state`.
///
/// Calls `<str as std::hash::Hash>::hash`. The contract claims that the
/// hasher's writes afterwards are a function of its writes before and of
/// the string (`str_hash_writes`); which bytes `str`'s `Hash` impl writes is
/// not stated.
#[verifier::external_body]
fn hash_str(path: &str, state: &mut DefaultHasher)
    ensures
        final(state)@ == str_hash_writes(old(state)@, path@),
{
    path.hash(state)
}

/// The hash of `path` by a fresh `DefaultHasher`, which names its endpoint.
pub fn calculate_hash(path: &str) -> (hash: u64)
    ensures
        hash == path_inode(path@),
{
    let mut hasher = DefaultHasher::new();
    hash_str(path, &mut hasher);
    hasher.finish()
}

/// Read, write for the owner; read for the rest.
pub const PERMISSIONS: u16 = 0o644;

/// The owner of every endpoint.
pub const OWNER_UID: u32 = 501;

/// The group of every endpoint.
pub const OWNER_GID: u32 = 20;

impl FSEndPoint {
    /// The endpoint's inode number.
    pub open spec fn inode(self) -> u64 {
        match self {
            FSEndPoint::File { inode_number, .. } => inode_number,
            FSEndPoint::Directory { inode_number, .. } => inode_number,
        }
    }

    /// When the endpoint was last updated.
    pub open spec fn updated(self) -> Timestamp {
        match self {
            FSEndPoint::File { last_updated, .. } => last_updated,
            FSEndPoint::Directory { last_updated, .. } => last_updated,
        }
    }

    /// The endpoint's kind.
    pub open spec fn kind(self) -> FileKind {
        match self {
            FSEndPoint::File { .. } => FileKind::RegularFile,
            FSEndPoint::Directory { .. } => FileKind::Directory,
        }
    }

    /// The reported size: a file's length in UTF-8 bytes; 0 for a
    /// directory.
    pub open spec fn size(self) -> u64 {
        match self {
            FSEndPoint::File { contents, .. } => (encode_utf8(contents@).len() as usize) as u64,
            FSEndPoint::Directory { .. } => 0,
        }
    }

    /// The attributes reported for the endpoint: its inode, size and kind,
    /// its update time as all four times, fixed permissions and ownership,
    /// one link, and zero for the rest.
    pub open spec fn attributes(self) -> FileAttributes {
        let time = timespec_of(self.updated());
        FileAttributes {
            ino: self.inode(),
            size: self.size(),
            blocks: 0,
            atime: time,
            mtime: time,
            ctime: time,
            crtime: time,
            kind: self.kind(),
            perm: PERMISSIONS,
            nlink: 1,
            uid: OWNER_UID,
            gid: OWNER_GID,
            rdev: 0,
            flags: 0,
        }
    }

    /// A file at `path` holding `contents`, updated now; its inode is the
    /// hash of the path.
    pub fn new_file(path: &str, contents: String) -> (endpoint: FSEndPoint)
        ensures
            endpoint matches FSEndPoint::File { last_updated, inode_number, contents: held } && {
                &&& inode_number == path_inode(path@)
                &&& held == contents
                &&& last_updated.wf()
            },
    {
        FSEndPoint::File { inode_number: calculate_hash(path), contents, last_updated: current_time() }
    }

    /// A directory at `path` holding `contents`, updated now; its inode is
    /// the hash of the path.
    pub fn new_directory(path: &str, contents: DirContents) -> (endpoint: FSEndPoint)
        ensures
            endpoint matches FSEndPoint::Directory { last_updated, inode_number, contents: held } && {
                &&& inode_number == path_inode(path@)
                &&& held == contents
                &&& last_updated.wf()
            },
    {
        FSEndPoint::Directory {
            inode_number: calculate_hash(path),
            contents,
            last_updated: current_time(),
        }
    }

    /// A directory's entries; a file has none.
    pub fn get_dir_contents(&self) -> (result: Result<&DirContents, FsError>)
        ensures
            match self {
                FSEndPoint::Directory { contents, .. } => result matches Ok(held) && *held
                    == contents,
                FSEndPoint::File { .. } => result == Err::<&DirContents, FsError>(
                    FsError::NotADirectory,
                ),
            },
    {
        match self {
            FSEndPoint::Directory { contents, .. } => Ok(contents),
            _ => Err(FsError::NotADirectory),
        }
    }

    /// A file's contents; a directory has none.
    pub fn get_file_contents(&self) -> (result: Result<&str, FsError>)
        ensures
            match self {
                FSEndPoint::File { contents, .. } => result matches Ok(held) && held@ == contents@,
                FSEndPoint::Directory { .. } => result == Err::<&str, FsError>(
                    FsError::NotAFile,
                ),
            },
    {
        match self {
            FSEndPoint::File { contents, .. } => Ok(contents.as_str()),
            _ => Err(FsError::NotAFile),
        }
    }

    /// The endpoint's kind.
    pub fn get_file_type(&self) -> (kind: FileKind)
        ensures
            kind == self.kind(),
    {
        match self {
            FSEndPoint::File { .. } => FileKind::RegularFile,
            FSEndPoint::Directory { .. } => FileKind::Directory,
        }
    }

    /// The attributes reported for the endpoint.
    ///
    /// An endpoint updated before the epoch has no time to report; it is
    /// left out, as is an update time that no system time takes.
    pub fn to_file_attr(&self) -> (attr: FileAttributes)
        requires
            self.updated().wf(),
            !self.updated().before_epoch,
        ensures
            attr == self.attributes(),
    {
        match self {
            FSEndPoint::File { last_updated, inode_number, contents } => FileAttributes {
                ino: *inode_number,
                size: contents.as_str().len() as u64,
                blocks: 0,
                atime: convert_time(last_updated),
                mtime: convert_time(last_updated),
                ctime: convert_time(last_updated),
                crtime: convert_time(last_updated),
                kind: FileKind::RegularFile,
                perm: PERMISSIONS,
                nlink: 1,
                uid: OWNER_UID,
                gid: OWNER_GID,
                rdev: 0,
                flags: 0,
            },
            FSEndPoint::Directory { last_updated, inode_number, .. } => FileAttributes {
                ino: *inode_number,
                size: 0,
                blocks: 0,
                atime: convert_time(last_updated),
                mtime: convert_time(last_updated),
                ctime: convert_time(last_updated),
                crtime: convert_time(last_updated),
                kind: FileKind::Directory,
                perm: PERMISSIONS,
                nlink: 1,
                uid: OWNER_UID,
                gid: OWNER_GID,
                rdev: 0,
                flags: 0,
            },
        }
    }
}

} // verus!
