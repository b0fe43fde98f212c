//! The filesystem's state and the answers it gives to the kernel's
//! requests: looking up a name, reading attributes, reading a file and
//! listing a directory.
use crate::definition::ApiDefinition;
use crate::directory::{lookup_entry, max_entries};
use crate::endpoint::{FSEndPoint, FileAttributes, FileKind, FsError};
use std::collections::HashMap;
use vstd::prelude::*;
use vstd::slice::{slice_subrange, slice_to_vec};
use vstd::utf8::encode_utf8;

verus! {

broadcast use vstd::std_specs::hash::group_hash_axioms;

/// One entry of a directory listing.
pub struct DirEntry {
    pub ino: u64,
    pub offset: i64,
    pub kind: FileKind,
    pub name: String,
}

/// A listing entry with its name as characters.
pub struct DirEntryView {
    pub ino: u64,
    pub offset: i64,
    pub kind: FileKind,
    pub name: Seq<char>,
}

impl View for DirEntry {
    type V = DirEntryView;

    open spec fn view(&self) -> DirEntryView {
        DirEntryView { ino: self.ino, offset: self.offset, kind: self.kind, name: self.name@ }
    }
}

/// Every endpoint is filed under its own inode number and was updated at a
/// system time at or after the epoch, and every directory keeps its own
/// invariant: no name twice, and few enough entries to number.
pub open spec fn table_wf(table: Map<u64, FSEndPoint>) -> bool {
    forall|ino: u64|
        #[trigger] table.contains_key(ino) ==> {
            &&& table[ino].inode() == ino
            &&& table[ino].updated().wf()
            &&& !table[ino].updated().before_epoch
            &&& table[ino] matches FSEndPoint::Directory { contents, .. } ==> contents.inv()
        }
}

/// What a request for the attributes of `ino` is answered.
pub open spec fn attr_result(table: Map<u64, FSEndPoint>, ino: u64) -> Result<
    FileAttributes,
    FsError,
> {
    if table.contains_key(ino) {
        Ok(table[ino].attributes())
    } else {
        Err(FsError::MissingEndpoint)
    }
}

/// What a lookup of `name` in the directory `parent` is answered.
pub open spec fn lookup_result(table: Map<u64, FSEndPoint>, parent: u64, name: Seq<char>) -> Result<
    FileAttributes,
    FsError,
> {
    if !table.contains_key(parent) {
        Err(FsError::MissingEndpoint)
    } else {
        match table[parent] {
            FSEndPoint::File { .. } => Err(FsError::NotADirectory),
            FSEndPoint::Directory { contents, .. } => match lookup_entry(contents@, name) {
                None => Err(FsError::MissingEntry),
                Some(ino) => attr_result(table, ino),
            },
        }
    }
}

/// Where a read at `offset` starts in a file's bytes.
pub open spec fn read_start(offset: i64) -> int {
    (offset as usize) as int
}

/// A read of `ino` at `offset` starts within the file, where `ino` is one.
pub open spec fn read_in_range(table: Map<u64, FSEndPoint>, ino: u64, offset: i64) -> bool {
    table.contains_key(ino) ==> match table[ino] {
        FSEndPoint::File { contents, .. } => read_start(offset) <= encode_utf8(contents@).len(),
        FSEndPoint::Directory { .. } => true,
    }
}

/// What a read of `ino` at `offset` is answered: the file's bytes from
/// the offset to the end.
pub open spec fn read_result(table: Map<u64, FSEndPoint>, ino: u64, offset: i64) -> Result<
    Seq<u8>,
    FsError,
> {
    if !table.contains_key(ino) {
        Err(FsError::MissingEndpoint)
    } else {
        match table[ino] {
            FSEndPoint::File { contents, .. } => {
                let bytes = encode_utf8(contents@);
                Ok(bytes.subrange(read_start(offset), bytes.len() as int))
            },
            FSEndPoint::Directory { .. } => Err(FsError::NotAFile),
        }
    }
}

/// How many entries of a directory a listing at `offset` passes over.
pub open spec fn skip_count(offset: i64) -> int {
    (offset as usize) + 2
}

/// The entries "." and ".." that a listing at `offset` starts with.
pub open spec fn dot_entries(offset: i64) -> Seq<DirEntryView> {
    let dot = DirEntryView { ino: 1, offset: 2, kind: FileKind::Directory, name: seq!['.'] };
    let dotdot = DirEntryView {
        ino: 1,
        offset: 2,
        kind: FileKind::Directory,
        name: seq!['.', '.'],
    };
    (if offset > 0 {
        seq![dot]
    } else {
        Seq::empty()
    }) + (if offset > 1 {
        seq![dotdot]
    } else {
        Seq::empty()
    })
}

/// Every entry of `entries` from position `skip` on names an endpoint.
pub open spec fn listed_present(
    table: Map<u64, FSEndPoint>,
    entries: Seq<(Seq<char>, u64)>,
    skip: int,
) -> bool {
    forall|i: int| skip <= i < entries.len() ==> table.contains_key(#[trigger] entries[i].1)
}

/// The listing of the entries of `entries` from position `skip` on: each
/// with its inode, its position plus 3 as its offset, its endpoint's kind
/// and its name.
pub open spec fn listed_entries(
    table: Map<u64, FSEndPoint>,
    entries: Seq<(Seq<char>, u64)>,
    skip: int,
) -> Seq<DirEntryView> {
    let count = if skip < entries.len() {
        (entries.len() - skip) as nat
    } else {
        0
    };
    Seq::new(
        count,
        |j: int|
            DirEntryView {
                ino: entries[skip + j].1,
                offset: (skip + j + 3) as i64,
                kind: table[entries[skip + j].1].kind(),
                name: entries[skip + j].0,
            },
    )
}

/// What a listing of the directory `ino` at `offset` is answered.
pub open spec fn readdir_result(table: Map<u64, FSEndPoint>, ino: u64, offset: i64) -> Result<
    Seq<DirEntryView>,
    FsError,
> {
    if !table.contains_key(ino) {
        Err(FsError::MissingEndpoint)
    } else {
        match table[ino] {
            FSEndPoint::File { .. } => Err(FsError::NotADirectory),
            FSEndPoint::Directory { contents, .. } => if listed_present(
                table,
                contents@,
                skip_count(offset),
            ) {
                Ok(dot_entries(offset) + listed_entries(table, contents@, skip_count(offset)))
            } else {
                Err(FsError::MissingEndpoint)
            },
        }
    }
}

/// The filesystem: the endpoints by inode, and the definition of the API
/// that they mirror with the path it was loaded from.
pub struct ApiFS {
    fs_endpoints: HashMap<u64, FSEndPoint>,
    api_definition: ApiDefinition,
    api_def_path: String,
}

impl View for ApiFS {
    type V = Map<u64, FSEndPoint>;

    closed spec fn view(&self) -> Map<u64, FSEndPoint> {
        self.fs_endpoints@
    }
}

impl ApiFS {
    #[verifier::type_invariant]
    spec fn inv(self) -> bool {
        table_wf(self.fs_endpoints@)
    }

    /// The definition the filesystem was made from.
    pub closed spec fn definition(self) -> ApiDefinition {
        self.api_definition
    }

    /// The path the definition was loaded from.
    pub closed spec fn definition_path(self) -> Seq<char> {
        self.api_def_path@
    }

    /// A filesystem for the API that `api_definition`, loaded from
    /// `api_def_path`, defines; it holds no endpoints yet.
    pub fn init(api_def_path: String, api_definition: ApiDefinition) -> (fs: ApiFS)
        ensures
            fs@ == Map::<u64, FSEndPoint>::empty(),
            table_wf(fs@),
            fs.definition() == api_definition,
            fs.definition_path() == api_def_path@,
    {
        ApiFS { fs_endpoints: HashMap::new(), api_definition, api_def_path }
    }

    /// The definition the filesystem was made from.
    pub fn api_definition(&self) -> (definition: &ApiDefinition)
        ensures
            *definition == self.definition(),
    {
        &self.api_definition
    }

    /// The path the definition was loaded from.
    pub fn api_def_path(&self) -> (path: &str)
        ensures
            path@ == self.definition_path(),
    {
        self.api_def_path.as_str()
    }

    /// Files `endpoint` under its inode number, in place of any endpoint
    /// there, which is returned.
    ///
    /// An endpoint updated before the epoch could not report its times; it
    /// is left out, as is an update time that no system time takes.
    pub fn insert_endpoint(&mut self, endpoint: FSEndPoint) -> (previous: Option<FSEndPoint>)
        requires
            endpoint.updated().wf(),
            !endpoint.updated().before_epoch,
        ensures
            table_wf(final(self)@),
            final(self)@ == old(self)@.insert(endpoint.inode(), endpoint),
            previous == (if old(self)@.contains_key(endpoint.inode()) {
                Some(old(self)@[endpoint.inode()])
            } else {
                None
            }),
            final(self).definition() == old(self).definition(),
            final(self).definition_path() == old(self).definition_path(),
    {
        proof {
            use_type_invariant(&*self);
        }
        let ghost before = self.fs_endpoints@;
        let ino = match &endpoint {
            FSEndPoint::File { inode_number, .. } => *inode_number,
            FSEndPoint::Directory { inode_number, .. } => *inode_number,
        };
        match &endpoint {
            FSEndPoint::Directory { contents, .. } => {
                proof {
                    use_type_invariant(contents);
                }
            },
            FSEndPoint::File { .. } => {},
        }
        let mut table: HashMap<u64, FSEndPoint> = HashMap::new();
        std::mem::swap(&mut table, &mut self.fs_endpoints);
        let previous = table.insert(ino, endpoint);
        proof {
            assert forall|k: u64| #[trigger] table@.contains_key(k) implies {
                &&& table@[k].inode() == k
                &&& table@[k].updated().wf()
                &&& !table@[k].updated().before_epoch
                &&& table@[k] matches FSEndPoint::Directory { contents, .. } ==> contents.inv()
            } by {
                if k != ino {
                    assert(before.contains_key(k));
                }
            }
        }
        self.fs_endpoints = table;
        previous
    }

    /// The attributes of the endpoint `ino`.
    pub fn getattr(&self, ino: u64) -> (result: Result<FileAttributes, FsError>)
        ensures
            table_wf(self@),
            result == attr_result(self@, ino),
            result matches Ok(attr) ==> attr.ino == ino,
    {
        proof {
            use_type_invariant(self);
        }
        match self.fs_endpoints.get(&ino) {
            Some(endpoint) => {
                assert(self.fs_endpoints@.contains_key(ino));
                Ok(endpoint.to_file_attr())
            },
            None => Err(FsError::MissingEndpoint),
        }
    }

    /// The attributes of the endpoint that `name` names in the directory
    /// `parent`.
    pub fn lookup(&self, parent: u64, name: &str) -> (result: Result<FileAttributes, FsError>)
        ensures
            table_wf(self@),
            result == lookup_result(self@, parent, name@),
    {
        proof {
            use_type_invariant(self);
        }
        let endpoint = match self.fs_endpoints.get(&parent) {
            Some(endpoint) => endpoint,
            None => {
                return Err(FsError::MissingEndpoint);
            },
        };
        let dir_contents = match endpoint.get_dir_contents() {
            Ok(dir_contents) => dir_contents,
            Err(e) => {
                return Err(e);
            },
        };
        let file_inode = match dir_contents.get(name) {
            Some(file_inode) => file_inode,
            None => {
                return Err(FsError::MissingEntry);
            },
        };
        match self.fs_endpoints.get(&file_inode) {
            Some(file_endpoint) => {
                assert(self.fs_endpoints@.contains_key(file_inode));
                Ok(file_endpoint.to_file_attr())
            },
            None => Err(FsError::MissingEndpoint),
        }
    }

    /// The bytes of the file `ino` from `offset` to the end.
    ///
    /// An offset past the end of the file is left out.
    pub fn read(&self, ino: u64, offset: i64) -> (result: Result<Vec<u8>, FsError>)
        requires
            read_in_range(self@, ino, offset),
        ensures
            table_wf(self@),
            match result {
                Ok(bytes) => read_result(self@, ino, offset) == Ok::<Seq<u8>, FsError>(bytes@),
                Err(e) => read_result(self@, ino, offset) == Err::<Seq<u8>, FsError>(e),
            },
    {
        proof {
            use_type_invariant(self);
        }
        let endpoint = match self.fs_endpoints.get(&ino) {
            Some(endpoint) => endpoint,
            None => {
                return Err(FsError::MissingEndpoint);
            },
        };
        let contents = match endpoint.get_file_contents() {
            Ok(contents) => contents,
            Err(e) => {
                return Err(e);
            },
        };
        let bytes = contents.as_bytes();
        let tail = slice_subrange(bytes, offset as usize, bytes.len());
        Ok(slice_to_vec(tail))
    }

    /// The listing of the directory `ino` at `offset`.
    ///
    /// An offset of -1 or -2, where the count of entries to pass over
    /// would overflow, is left out.
    pub fn readdir(&self, ino: u64, offset: i64) -> (result: Result<Vec<DirEntry>, FsError>)
        requires
            skip_count(offset) <= usize::MAX,
        ensures
            table_wf(self@),
            match result {
                Ok(entries) => readdir_result(self@, ino, offset) == Ok::<
                    Seq<DirEntryView>,
                    FsError,
                >(entries@.map_values(|e: DirEntry| e@)),
                Err(e) => readdir_result(self@, ino, offset) == Err::<Seq<DirEntryView>, FsError>(
                    e,
                ),
            },
    {
        proof {
            use_type_invariant(self);
        }
        let endpoint = match self.fs_endpoints.get(&ino) {
            Some(endpoint) => endpoint,
            None => {
                return Err(FsError::MissingEndpoint);
            },
        };
        let dir_contents = match endpoint.get_dir_contents() {
            Ok(dir_contents) => dir_contents,
            Err(e) => {
                return Err(e);
            },
        };
        let ghost table = self@;
        let ghost entries_view = dir_contents@;
        let ghost skip_view = skip_count(offset);
        assert(readdir_result(table, ino, offset) == if listed_present(
            table,
            entries_view,
            skip_view,
        ) {
            Ok::<Seq<DirEntryView>, FsError>(
                dot_entries(offset) + listed_entries(table, entries_view, skip_view),
            )
        } else {
            Err::<Seq<DirEntryView>, FsError>(FsError::MissingEndpoint)
        });
        let mut listing: Vec<DirEntry> = Vec::new();
        if offset > 0 {
            listing.push(
                DirEntry { ino: 1, offset: 2, kind: FileKind::Directory, name: ".".to_owned() },
            );
        }
        if offset > 1 {
            listing.push(
                DirEntry { ino: 1, offset: 2, kind: FileKind::Directory, name: "..".to_owned() },
            );
        }
        proof {
            reveal_strlit(".");
            reveal_strlit("..");
            let dots = listing@.map_values(|e: DirEntry| e@);
            if offset > 1 {
                assert(dots[0].name =~= seq!['.']);
                assert(dots[1].name =~= seq!['.', '.']);
            } else if offset > 0 {
                assert(dots[0].name =~= seq!['.']);
            }
            assert(dots =~= dot_entries(offset));
        }
        let n = dir_contents.len();
        let skip = (offset as usize) + 2;
        let mut i = skip;
        assert(listed_entries(table, entries_view, skip as int).take(0) =~= Seq::<
            DirEntryView,
        >::empty());
        while i < n
            invariant
                n == entries_view.len(),
                n <= max_entries(),
                entries_view == dir_contents@,
                table == self@,
                table_wf(table),
                skip == skip_count(offset),
                skip_view == skip_count(offset),
                skip <= i,
                i <= n || i == skip,
                readdir_result(table, ino, offset) == if listed_present(
                    table,
                    entries_view,
                    skip_view,
                ) {
                    Ok::<Seq<DirEntryView>, FsError>(
                        dot_entries(offset) + listed_entries(table, entries_view, skip_view),
                    )
                } else {
                    Err::<Seq<DirEntryView>, FsError>(FsError::MissingEndpoint)
                },
                forall|k: int| skip <= k < i ==> table.contains_key(#[trigger] entries_view[k].1),
                listing@.map_values(|e: DirEntry| e@) =~= dot_entries(offset) + listed_entries(
                    table,
                    entries_view,
                    skip as int,
                ).take(i - skip),
            decreases n - i,
        {
            let (name, inode) = dir_contents.entry(i);
            let file_endpoint = match self.fs_endpoints.get(&inode) {
                Some(file_endpoint) => file_endpoint,
                None => {
                    assert(!table.contains_key(entries_view[i as int].1));
                    assert(!listed_present(table, entries_view, skip as int));
                    return Err(FsError::MissingEndpoint);
                },
            };
            let kind = file_endpoint.get_file_type();
            let ghost before = listing@.map_values(|e: DirEntry| e@);
            let entry = DirEntry { ino: inode, offset: i as i64 + 3, kind, name };
            proof {
                let listed = listed_entries(table, entries_view, skip as int);
                assert(table.contains_key(inode));
                assert(listed[i - skip] == entry@);
                assert(listed.take(i + 1 - skip) =~= listed.take(i - skip).push(entry@));
            }
            listing.push(entry);
            proof {
                assert(listing@.map_values(|e: DirEntry| e@) =~= before.push(entry@));
            }
            i = i + 1;
        }
        proof {
            let listed = listed_entries(table, entries_view, skip as int);
            assert(listed.take(i - skip) =~= listed);
        }
        Ok(listing)
    }
}

} // verus!
