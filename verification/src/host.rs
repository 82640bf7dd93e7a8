//! The values that pass between the guard and its host: places on disk, what
//! the host found there, and listings of directory trees.

use vstd::prelude::*;
use vstd::string::*;

verus! {

/// A place on disk: a base path as the platform wrote it, and the names that
/// lead from it down to the place.
#[derive(Debug, Clone, PartialEq, Eq)]
pub struct Location {
    pub base: String,
    pub parts: Vec<String>,
}

/// A `Location` as plain sequences.
pub struct Place {
    pub base: Seq<char>,
    pub parts: Seq<Seq<char>>,
}

impl DeepView for Location {
    type V = Place;

    open spec fn deep_view(&self) -> Place {
        Place { base: self.base@, parts: self.parts.deep_view() }
    }
}

impl Place {
    /// The place at `base` itself.
    pub open spec fn at(base: Seq<char>) -> Place {
        Place { base, parts: Seq::empty() }
    }

    /// The entry called `name` directly under this place.
    pub open spec fn child(self, name: Seq<char>) -> Place {
        Place { base: self.base, parts: self.parts.push(name) }
    }

    /// The place reached from here by the names `rel`.
    pub open spec fn below(self, rel: Seq<Seq<char>>) -> Place {
        Place { base: self.base, parts: self.parts + rel }
    }

    /// Whether this place is `root` or lies somewhere under it.
    pub open spec fn within(self, root: Place) -> bool {
        self.base == root.base && root.parts.is_prefix_of(self.parts)
    }
}

/// Whether `c` sets the parts of a path apart, or a drive from the rest.
pub open spec fn is_separator(c: char) -> bool {
    c == '/' || c == '\\' || c == ':'
}

/// Whether `name` is a single name: no character of it sets parts of a path
/// apart.
pub open spec fn is_plain(name: Seq<char>) -> bool {
    forall|i: int| 0 <= i < name.len() ==> !is_separator(#[trigger] name[i])
}

/// Pushing onto a vector pushes the element's view onto the vector's view.
pub proof fn lemma_deep_view_push<T: DeepView>(before: Vec<T>, after: Vec<T>, x: T)
    requires
        after@ == before@.push(x),
    ensures
        after.deep_view() == before.deep_view().push(x.deep_view()),
{
    assert(after.deep_view() =~= before.deep_view().push(x.deep_view())) by {
        assert forall|j: int| 0 <= j < after@.len() implies after.deep_view()[j]
            == before.deep_view().push(x.deep_view())[j] by {
            if j < before@.len() {
                assert(after@[j] == before@[j]);
                assert(before.deep_view()[j] == before@[j].deep_view());
            }
        }
    }
}

/// A copy of the names in `names`.
pub fn copy_names(names: &Vec<String>) -> (out: Vec<String>)
    ensures
        out.deep_view() == names.deep_view(),
{
    let mut out: Vec<String> = Vec::new();
    let mut i: usize = 0;
    while i < names.len()
        invariant
            i <= names.len(),
            out.deep_view() == names.deep_view().take(i as int),
        decreases names.len() - i,
    {
        let ghost before = out;
        let name = names[i].clone();
        out.push(name);
        proof {
            lemma_deep_view_push(before, out, name);
            assert(names.deep_view().take(i + 1) =~= names.deep_view().take(i as int).push(
                names@[i as int].deep_view(),
            ));
        }
        i += 1;
    }
    proof {
        assert(names.deep_view().take(names.len() as int) =~= names.deep_view());
    }
    out
}

impl Location {
    /// The place at `base` itself.
    pub fn at(base: &str) -> (out: Location)
        ensures
            out.deep_view() == Place::at(base@),
    {
        let out = Location { base: String::from_str(base), parts: Vec::new() };
        proof {
            assert(out.parts.deep_view() =~= Seq::<Seq<char>>::empty());
        }
        out
    }

    /// A copy of this location.
    pub fn duplicate(&self) -> (out: Location)
        ensures
            out.deep_view() == self.deep_view(),
    {
        Location { base: self.base.clone(), parts: copy_names(&self.parts) }
    }

    /// The entry called `name` directly under this place.
    pub fn child(&self, name: &str) -> (out: Location)
        ensures
            out.deep_view() == self.deep_view().child(name@),
    {
        let mut parts = copy_names(&self.parts);
        let ghost before = parts;
        let last = String::from_str(name);
        parts.push(last);
        proof {
            lemma_deep_view_push(before, parts, last);
        }
        Location { base: self.base.clone(), parts }
    }

    /// The place reached from here by the names `rel`.
    pub fn below(&self, rel: &Vec<String>) -> (out: Location)
        ensures
            out.deep_view() == self.deep_view().below(rel.deep_view()),
    {
        let mut parts = copy_names(&self.parts);
        let mut i: usize = 0;
        while i < rel.len()
            invariant
                i <= rel.len(),
                parts.deep_view() == self.parts.deep_view() + rel.deep_view().take(i as int),
            decreases rel.len() - i,
        {
            let ghost before = parts;
            let name = rel[i].clone();
            parts.push(name);
            proof {
                lemma_deep_view_push(before, parts, name);
                assert(rel.deep_view().take(i + 1) =~= rel.deep_view().take(i as int).push(
                    rel@[i as int].deep_view(),
                ));
                assert(parts.deep_view() =~= self.parts.deep_view() + rel.deep_view().take(i + 1));
            }
            i += 1;
        }
        proof {
            assert(rel.deep_view().take(rel.len() as int) =~= rel.deep_view());
        }
        Location { base: self.base.clone(), parts }
    }
}

/// What the host found at a place that exists.
#[derive(Debug, Clone, Copy, PartialEq, Eq)]
pub struct FileMeta {
    /// The place is a directory.
    pub is_dir: bool,
    /// Its length in bytes.
    pub len: u64,
    /// It carries the read-only attribute.
    pub readonly: bool,
}

/// One entry of a directory listing or of a walk through a tree.
#[derive(Debug, Clone, PartialEq, Eq)]
pub struct Entry {
    /// The names that lead from the listed root to the entry; empty for the
    /// root itself.
    pub rel: Vec<String>,
    /// The entry is a directory, links followed.
    pub is_dir: bool,
    /// The entry itself is a regular file.
    pub is_file: bool,
    /// Its length in bytes, where the host could read it.
    pub len: Option<u64>,
}

/// An `Entry` as plain sequences.
pub struct EntryView {
    pub rel: Seq<Seq<char>>,
    pub is_dir: bool,
    pub is_file: bool,
    pub len: Option<u64>,
}

impl DeepView for Entry {
    type V = EntryView;

    open spec fn deep_view(&self) -> EntryView {
        EntryView {
            rel: self.rel.deep_view(),
            is_dir: self.is_dir,
            is_file: self.is_file,
            len: self.len,
        }
    }
}

impl EntryView {
    /// The bytes this entry adds to the size of its tree: the length of a
    /// regular file whose length is known, nothing otherwise.
    pub open spec fn weight(self) -> nat {
        if self.is_file && self.len is Some {
            self.len->0 as nat
        } else {
            0
        }
    }
}

/// The bytes in the regular files among `entries`.
pub open spec fn total_size(entries: Seq<EntryView>) -> nat
    decreases entries.len(),
{
    if entries.len() == 0 {
        0
    } else {
        total_size(entries.drop_last()) + entries.last().weight()
    }
}

/// The entries of a directory or of a whole tree, as the host listed them.
/// The sizes of its regular files add up to a number that fits in `u64`.
#[derive(Debug, PartialEq, Eq)]
pub struct Listing {
    entries: Vec<Entry>,
    total: u64,
}

impl DeepView for Listing {
    type V = Seq<EntryView>;

    closed spec fn deep_view(&self) -> Seq<EntryView> {
        self.entries.deep_view()
    }
}

impl Listing {
    #[verifier::type_invariant]
    closed spec fn sizes_add_up(&self) -> bool {
        self.total == total_size(self.entries.deep_view())
    }

    /// Takes the entries as a listing; `None` where the sizes of the regular
    /// files among them add up to more than `u64::MAX`.
    pub fn new(entries: Vec<Entry>) -> (out: Option<Listing>)
        ensures
            out is Some <==> total_size(entries.deep_view()) <= u64::MAX,
            out is Some ==> out->0.deep_view() == entries.deep_view(),
    {
        let mut total: u64 = 0;
        let mut i: usize = 0;
        while i < entries.len()
            invariant
                i <= entries.len(),
                total == total_size(entries.deep_view().take(i as int)),
            decreases entries.len() - i,
        {
            let ghost head = entries.deep_view().take(i as int + 1);
            proof {
                assert(head.drop_last() =~= entries.deep_view().take(i as int));
                assert(head.last() == entries[i as int].deep_view());
            }
            if entries[i].is_file {
                if let Some(len) = entries[i].len {
                    match total.checked_add(len) {
                        Some(sum) => {
                            total = sum;
                        },
                        None => {
                            proof {
                                lemma_total_size_grows(entries.deep_view(), i as int + 1);
                            }
                            return None;
                        },
                    }
                }
            }
            i += 1;
        }
        proof {
            assert(entries.deep_view().take(entries.len() as int) =~= entries.deep_view());
        }
        Some(Listing { entries, total })
    }

    /// A listing without entries.
    pub fn empty() -> (out: Listing)
        ensures
            out.deep_view() == Seq::<EntryView>::empty(),
    {
        let entries: Vec<Entry> = Vec::new();
        proof {
            assert(entries.deep_view() =~= Seq::<EntryView>::empty());
        }
        Listing { entries, total: 0 }
    }

    /// The entries, in the order the host gave them.
    pub fn entries(&self) -> (out: &Vec<Entry>)
        ensures
            out.deep_view() == self.deep_view(),
    {
        &self.entries
    }

    /// The bytes in the regular files of the listing.
    pub fn total(&self) -> (out: u64)
        ensures
            out == total_size(self.deep_view()),
    {
        proof {
            use_type_invariant(self);
        }
        self.total
    }
}

/// The size of a tree is no smaller than the size of any leading part of it.
pub proof fn lemma_total_size_grows(entries: Seq<EntryView>, k: int)
    requires
        0 <= k <= entries.len(),
    ensures
        total_size(entries.take(k)) <= total_size(entries),
    decreases entries.len(),
{
    if k == entries.len() {
        assert(entries.take(k) =~= entries);
    } else {
        lemma_total_size_grows(entries.drop_last(), k);
        assert(entries.drop_last().take(k) =~= entries.take(k));
    }
}

} // verus!
