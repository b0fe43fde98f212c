//! The contents of a directory: an ordered list of names, each naming the
//! inode of an endpoint.
use vstd::prelude::*;

verus! {

/// `i` is the first position in `entries` that holds `name`.
pub open spec fn first_match(entries: Seq<(Seq<char>, u64)>, name: Seq<char>, i: int) -> bool {
    &&& 0 <= i < entries.len()
    &&& entries[i].0 == name
    &&& forall|j: int| 0 <= j < i ==> #[trigger] entries[j].0 != name
}

/// The inode that `entries` gives for `name`: that of its first occurrence.
pub open spec fn lookup_entry(entries: Seq<(Seq<char>, u64)>, name: Seq<char>) -> Option<u64> {
    if exists|i: int| first_match(entries, name, i) {
        Some(entries[choose|i: int| first_match(entries, name, i)].1)
    } else {
        None
    }
}

/// No name occurs twice in `entries`.
pub open spec fn names_distinct(entries: Seq<(Seq<char>, u64)>) -> bool {
    forall|i: int, j: int|
        0 <= i < j < entries.len() ==> #[trigger] entries[i].0 != #[trigger] entries[j].0
}

/// The most entries a directory holds: its listing numbers the entries
/// from 3 on with signed 64-bit offsets, which this keeps in range. A list
/// of this many entries cannot be allocated.
pub open spec fn max_entries() -> int {
    0x7fff_ffff_ffff_fffc
}

/// A directory's entries, in the order in which their names were first
/// inserted; no name occurs twice.
pub struct DirContents {
    entries: Vec<(String, u64)>,
}

impl View for DirContents {
    type V = Seq<(Seq<char>, u64)>;

    closed spec fn view(&self) -> Seq<(Seq<char>, u64)> {
        self.entries@.map_values(|e: (String, u64)| (e.0@, e.1))
    }
}

/// With a single match at `i`, `lookup_entry` gives the inode held there.
proof fn lemma_lookup_at(entries: Seq<(Seq<char>, u64)>, name: Seq<char>, i: int)
    requires
        first_match(entries, name, i),
    ensures
        lookup_entry(entries, name) == Some(entries[i].1),
{
    let k = choose|k: int| first_match(entries, name, k);
    assert(first_match(entries, name, k));
    if k < i {
        assert(entries[k].0 != name);
    } else if k > i {
        assert(entries[i].0 != name);
    }
}

/// Without any match, `lookup_entry` gives nothing.
proof fn lemma_lookup_absent(entries: Seq<(Seq<char>, u64)>, name: Seq<char>)
    requires
        forall|j: int| 0 <= j < entries.len() ==> #[trigger] entries[j].0 != name,
    ensures
        lookup_entry(entries, name) is None,
{
    if exists|i: int| first_match(entries, name, i) {
        let k = choose|k: int| first_match(entries, name, k);
        assert(entries[k].0 != name);
    }
}

/// In entries whose names are distinct, every name is looked up to the
/// inode held beside it.
pub proof fn lemma_listed_name_found(entries: Seq<(Seq<char>, u64)>, i: int)
    requires
        names_distinct(entries),
        0 <= i < entries.len(),
    ensures
        lookup_entry(entries, entries[i].0) == Some(entries[i].1),
{
    assert forall|j: int| 0 <= j < i implies #[trigger] entries[j].0 != entries[i].0 by {
        assert(entries[j].0 != entries[i].0);
    }
    assert(first_match(entries, entries[i].0, i));
    lemma_lookup_at(entries, entries[i].0, i);
}

impl DirContents {
    /// No name occurs twice, and the entries stay few enough to be numbered
    /// by a listing.
    #[verifier::type_invariant]
    pub open spec fn inv(self) -> bool {
        &&& names_distinct(self@)
        &&& self@.len() <= max_entries()
    }

    /// An empty directory.
    pub fn new() -> (dir: DirContents)
        ensures
            dir@ == Seq::<(Seq<char>, u64)>::empty(),
    {
        let dir = DirContents { entries: Vec::new() };
        assert(dir@ =~= Seq::<(Seq<char>, u64)>::empty());
        dir
    }

    /// The number of entries.
    pub fn len(&self) -> (n: usize)
        ensures
            n == self@.len(),
            n <= max_entries(),
            names_distinct(self@),
    {
        proof {
            use_type_invariant(self);
        }
        self.entries.len()
    }

    /// The entry at position `i`: its name and inode.
    pub fn entry(&self, i: usize) -> (entry: (String, u64))
        requires
            i < self@.len(),
        ensures
            entry.0@ == self@[i as int].0,
            entry.1 == self@[i as int].1,
    {
        let name = self.entries[i].0.clone();
        (name, self.entries[i].1)
    }

    /// The inode that `name` names in this directory, if any.
    pub fn get(&self, name: &str) -> (ino: Option<u64>)
        ensures
            ino == lookup_entry(self@, name@),
    {
        let key = name.to_owned();
        let mut i: usize = 0;
        while i < self.entries.len()
            invariant
                i <= self.entries@.len(),
                key@ == name@,
                forall|j: int| 0 <= j < i ==> #[trigger] self@[j].0 != name@,
            decreases self.entries@.len() - i,
        {
            if self.entries[i].0 == key {
                proof {
                    assert(self@[i as int].0 == name@);
                    lemma_lookup_at(self@, name@, i as int);
                }
                return Some(self.entries[i].1);
            }
            assert(self@[i as int].0 != name@);
            i = i + 1;
        }
        proof {
            lemma_lookup_absent(self@, name@);
        }
        None
    }

    /// Maps `name` to `ino`, as a map's insert does: an entry that holds
    /// `name` already keeps its place and takes the new inode, and the old
    /// inode is returned; else the entry goes at the end.
    pub fn insert(&mut self, name: String, ino: u64) -> (previous: Option<u64>)
        requires
            old(self)@.len() < max_entries(),
        ensures
            previous == lookup_entry(old(self)@, name@),
            previous is None ==> final(self)@ == old(self)@.push((name@, ino)),
            previous is Some ==> exists|i: int|
                first_match(old(self)@, name@, i) && final(self)@ == old(self)@.update(
                    i,
                    (name@, ino),
                ),
            forall|other: Seq<char>|
                #[trigger] lookup_entry(final(self)@, other) == if other == name@ {
                    Some(ino)
                } else {
                    lookup_entry(old(self)@, other)
                },
    {
        proof {
            use_type_invariant(&*self);
        }
        let ghost before = self@;
        let mut i: usize = 0;
        while i < self.entries.len()
            invariant
                i <= self.entries@.len(),
                self@ == before,
                before == old(self)@,
                names_distinct(before),
                before.len() < max_entries(),
                forall|j: int| 0 <= j < i ==> #[trigger] self@[j].0 != name@,
            decreases self.entries@.len() - i,
        {
            if self.entries[i].0 == name {
                let previous = self.entries[i].1;
                proof {
                    assert(self@[i as int].0 == name@);
                    assert(self@[i as int].1 == previous);
                    assert(first_match(before, name@, i as int));
                    lemma_lookup_at(before, name@, i as int);
                }
                let mut entries: Vec<(String, u64)> = Vec::new();
                std::mem::swap(&mut entries, &mut self.entries);
                entries[i].1 = ino;
                proof {
                    let after = before.update(i as int, (name@, ino));
                    assert(entries@.map_values(|e: (String, u64)| (e.0@, e.1)) =~= after);
                    assert forall|a: int, b: int|
                        0 <= a < b < after.len() implies #[trigger] after[a].0 != #[trigger] after[b].0 by {
                        assert(before[a].0 != before[b].0);
                    }
                }
                self.entries = entries;
                proof {
                    let after = before.update(i as int, (name@, ino));
                    assert(self@ =~= after);
                    assert forall|other: Seq<char>|
                        #[trigger] lookup_entry(after, other) == if other == name@ {
                            Some(ino)
                        } else {
                            lookup_entry(before, other)
                        } by {
                        if other == name@ {
                            assert(first_match(after, other, i as int));
                            lemma_lookup_at(after, other, i as int);
                        } else if exists|k: int| first_match(before, other, k) {
                            let k = choose|k: int| first_match(before, other, k);
                            lemma_lookup_at(before, other, k);
                            assert forall|j: int| 0 <= j < k implies #[trigger] after[j].0
                                != other by {
                                assert(before[j].0 != other);
                            }
                            assert(first_match(after, other, k));
                            lemma_lookup_at(after, other, k);
                        } else {
                            assert forall|j: int| 0 <= j < after.len() implies #[trigger] after[j].0
                                != other by {
                                if before[j].0 == other {
                                    lemma_first_exists(before, other, j);
                                }
                            }
                            lemma_lookup_absent(after, other);
                        }
                    }
                }
                return Some(previous);
            }
            assert(self@[i as int].0 != name@);
            i = i + 1;
        }
        proof {
            lemma_lookup_absent(before, name@);
        }
        let ghost name_view = name@;
        let mut entries: Vec<(String, u64)> = Vec::new();
        std::mem::swap(&mut entries, &mut self.entries);
        entries.push((name, ino));
        proof {
            let after = before.push((name_view, ino));
            assert(entries@.map_values(|e: (String, u64)| (e.0@, e.1)) =~= after);
            assert forall|a: int, b: int|
                0 <= a < b < after.len() implies #[trigger] after[a].0 != #[trigger] after[b].0 by {
                if b < before.len() {
                    assert(before[a].0 != before[b].0);
                }
            }
        }
        self.entries = entries;
        proof {
            let after = before.push((name_view, ino));
            assert(self@ =~= after);
            assert forall|other: Seq<char>|
                #[trigger] lookup_entry(after, other) == if other == name_view {
                    Some(ino)
                } else {
                    lookup_entry(before, other)
                } by {
                if other == name_view {
                    assert(first_match(after, other, before.len() as int));
                    lemma_lookup_at(after, other, before.len() as int);
                } else if exists|k: int| first_match(before, other, k) {
                    let k = choose|k: int| first_match(before, other, k);
                    lemma_lookup_at(before, other, k);
                    assert(first_match(after, other, k));
                    lemma_lookup_at(after, other, k);
                } else {
                    assert forall|j: int| 0 <= j < after.len() implies #[trigger] after[j].0
                        != other by {
                        if j < before.len() && before[j].0 == other {
                            lemma_first_exists(before, other, j);
                        }
                    }
                    lemma_lookup_absent(after, other);
                }
            }
        }
        None
    }
}

/// Any occurrence of `name` implies a first one.
proof fn lemma_first_exists(entries: Seq<(Seq<char>, u64)>, name: Seq<char>, i: int)
    requires
        0 <= i < entries.len(),
        entries[i].0 == name,
    ensures
        exists|k: int| first_match(entries, name, k),
    decreases i,
{
    if forall|j: int| 0 <= j < i ==> #[trigger] entries[j].0 != name {
        assert(first_match(entries, name, i));
    } else {
        let j = choose|j: int| 0 <= j < i && #[trigger] entries[j].0 == name;
        lemma_first_exists(entries, name, j);
    }
}

} // verus!
