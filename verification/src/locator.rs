//! The locator: which bibliography the `paper.md` of a project names.
//!
//! A walk over a directory tree hands its entries over one by one.  The first entry
//! that is a `paper.md` with a readable preamble decides: the bibliography stands
//! beside that `paper.md`, under the name that the preamble gives.  The walk itself,
//! the reading of the file and the decoding of its preamble are the caller's; what
//! they found comes in as an `Entry`.

use vstd::prelude::*;

verus! {

/// What the preamble of a `paper.md` says.
pub struct Metadata {
    /// The bibliography's path, relative to the directory of the `paper.md`.
    pub bibliography: String,
}

/// One entry of the tree.  `P` is whatever the caller names a directory by.
pub struct Entry<P> {
    /// The last component of the entry's path, where the path has one.
    pub file_name: Option<String>,
    /// The directory that holds the entry, where there is one.
    pub parent: Option<P>,
    /// The preamble of the entry, where it could be read and decoded.
    pub metadata: Option<Metadata>,
}

/// Where a bibliography is: the path is `directory` joined with `file`.
pub struct Location<P> {
    pub directory: P,
    pub file: String,
}

/// An `Entry` with its texts as sequences of characters.
pub struct EntryView<P> {
    pub file_name: Option<Seq<char>>,
    pub parent: Option<P>,
    pub bibliography: Option<Seq<char>>,
}

/// A `Location` with its text as a sequence of characters.
pub struct LocationView<P> {
    pub directory: P,
    pub file: Seq<char>,
}

impl<P> View for Entry<P> {
    type V = EntryView<P>;

    open spec fn view(&self) -> EntryView<P> {
        EntryView {
            file_name: match self.file_name {
                Some(name) => Some(name@),
                None => None,
            },
            parent: self.parent,
            bibliography: match self.metadata {
                Some(metadata) => Some(metadata.bibliography@),
                None => None,
            },
        }
    }
}

impl<P> View for Location<P> {
    type V = LocationView<P>;

    open spec fn view(&self) -> LocationView<P> {
        LocationView { directory: self.directory, file: self.file@ }
    }
}

/// The name of the file that holds a project's metadata.
pub open spec fn paper_name() -> Seq<char> {
    "paper.md"@
}

/// What the walk knows of an entry that it could read: `None` stands for one that
/// it could not.
pub open spec fn entry_view<P, E>(entry: Result<Entry<P>, E>) -> Option<EntryView<P>> {
    match entry {
        Ok(entry) => Some(entry@),
        Err(_) => None,
    }
}

/// The bibliography that `entry` names: that of an entry which could be read, is
/// called `paper.md`, has a decoded preamble and lies in a directory.
pub open spec fn located<P>(entry: Option<EntryView<P>>) -> Option<LocationView<P>> {
    match entry {
        Some(EntryView { file_name: Some(name), parent: Some(directory), bibliography: Some(file) }) => {
            if name == paper_name() {
                Some(LocationView { directory, file })
            } else {
                None
            }
        },
        _ => None,
    }
}

/// The bibliography that the first of `entries` names which names one.
pub open spec fn first_located<P>(entries: Seq<Option<EntryView<P>>>) -> Option<LocationView<P>>
    decreases entries.len(),
{
    if entries.len() == 0 {
        None
    } else if located(entries[0]) is Some {
        located(entries[0])
    } else {
        first_located(entries.skip(1))
    }
}

/// The view of a location that may be missing.
pub open spec fn location_view<P>(location: Option<Location<P>>) -> Option<LocationView<P>> {
    match location {
        Some(location) => Some(location@),
        None => None,
    }
}

/// Whether a file of this name is a project's metadata document: its name is
/// `paper.md`, letter for letter.
pub fn is_paper_md(file_name: &str) -> (named: bool)
    ensures
        named == (file_name@ == paper_name()),
{
    file_name.to_owned() == "paper.md".to_owned()
}

/// The bibliography that one entry of the walk names, if it names one.
pub fn paper_md<P, E>(entry: Result<Entry<P>, E>) -> (found: Option<Location<P>>)
    ensures
        location_view(found) == located(entry_view(entry)),
{
    let entry = match entry {
        Ok(entry) => entry,
        Err(_) => {
            return None;
        },
    };
    let Entry { file_name, parent, metadata } = entry;
    let name = match file_name {
        Some(name) => name,
        None => {
            return None;
        },
    };
    if !is_paper_md(name.as_str()) {
        return None;
    }
    let metadata = match metadata {
        Some(metadata) => metadata,
        None => {
            return None;
        },
    };
    match parent {
        Some(directory) => Some(Location { directory, file: metadata.bibliography }),
        None => None,
    }
}

/// A search through the entries of a walk, in the order in which they come.
pub struct Search<P> {
    found: Option<Location<P>>,
    seen: Ghost<Seq<Option<EntryView<P>>>>,
}

impl<P> Search<P> {
    #[verifier::type_invariant]
    spec fn consistent(self) -> bool {
        location_view(self.found) == first_located(self.seen@)
    }

    /// The entries that the search has seen, in the order of the walk.
    pub closed spec fn seen(self) -> Seq<Option<EntryView<P>>> {
        self.seen@
    }

    /// A search that has seen nothing yet.
    pub fn new() -> (search: Self)
        ensures
            search.seen() == Seq::<Option<EntryView<P>>>::empty(),
    {
        Search { found: None, seen: Ghost(Seq::empty()) }
    }

    /// Takes the next entry of the walk.
    pub fn visit<E>(&mut self, entry: Result<Entry<P>, E>)
        ensures
            final(self).seen() == old(self).seen().push(entry_view(entry)),
    {
        proof {
            use_type_invariant(&*self);
            lemma_first_located_push(self.seen@, entry_view(entry));
        }
        let ghost seen = self.seen@.push(entry_view(entry));
        if self.found.is_none() {
            *self = Search { found: paper_md(entry), seen: Ghost(seen) };
        } else {
            self.seen = Ghost(seen);
        }
    }

    /// Whether the search has found the bibliography, so that the walk can end.
    pub fn is_done(&self) -> (done: bool)
        ensures
            done == first_located(self.seen()) is Some,
    {
        proof {
            use_type_invariant(self);
        }
        self.found.is_some()
    }

    /// The bibliography that the first entry names which names one, or `None` if no
    /// entry that the search has seen names one.
    pub fn finish(self) -> (found: Option<Location<P>>)
        ensures
            location_view(found) == first_located(self.seen()),
    {
        proof {
            use_type_invariant(&self);
        }
        self.found
    }
}

/// One more entry changes the result only where none was found before.
pub proof fn lemma_first_located_push<P>(
    entries: Seq<Option<EntryView<P>>>,
    next: Option<EntryView<P>>,
)
    ensures
        first_located(entries.push(next)) == if first_located(entries) is Some {
            first_located(entries)
        } else {
            located(next)
        },
    decreases entries.len(),
{
    let longer = entries.push(next);
    if entries.len() == 0 {
        assert(longer.skip(1) =~= entries);
    } else {
        assert(longer[0] == entries[0]);
        assert(longer.skip(1) =~= entries.skip(1).push(next));
        lemma_first_located_push(entries.skip(1), next);
    }
}

/// The first entry that names a bibliography decides, whatever comes after it.
pub proof fn lemma_first_entry_wins<P>(entries: Seq<Option<EntryView<P>>>, at: int)
    requires
        0 <= at < entries.len(),
        located(entries[at]) is Some,
        forall|j: int| 0 <= j < at ==> located(#[trigger] entries[j]) is None,
    ensures
        first_located(entries) == located(entries[at]),
    decreases entries.len(),
{
    if at > 0 {
        let rest = entries.skip(1);
        assert(located(entries[0]) is None);
        assert forall|j: int| 0 <= j < at - 1 implies located(#[trigger] rest[j]) is None by {
            assert(rest[j] == entries[j + 1]);
        }
        lemma_first_entry_wins(rest, at - 1);
    }
}

/// Where no entry names a bibliography, none is found.
pub proof fn lemma_nothing_located<P>(entries: Seq<Option<EntryView<P>>>)
    requires
        forall|j: int| 0 <= j < entries.len() ==> located(#[trigger] entries[j]) is None,
    ensures
        first_located(entries) is None,
    decreases entries.len(),
{
    if entries.len() > 0 {
        let rest = entries.skip(1);
        assert(located(entries[0]) is None);
        assert forall|j: int| 0 <= j < rest.len() implies located(#[trigger] rest[j]) is None by {
            assert(rest[j] == entries[j + 1]);
        }
        lemma_nothing_located(rest);
    }
}

/// The entry is called `paper.md`.
pub open spec fn names_paper<P>(entry: Option<EntryView<P>>) -> bool {
    entry matches Some(entry) && entry.file_name == Some(paper_name())
}

/// In a tree with one `paper.md`, which lies in `directory` and names `file`, the
/// bibliography is `file` in `directory`, wherever in the tree that is.
pub proof fn lemma_single_paper<P>(
    entries: Seq<Option<EntryView<P>>>,
    at: int,
    directory: P,
    file: Seq<char>,
)
    requires
        0 <= at < entries.len(),
        entries[at] == Some(
            EntryView {
                file_name: Some(paper_name()),
                parent: Some(directory),
                bibliography: Some(file),
            },
        ),
        forall|j: int| 0 <= j < entries.len() && j != at ==> !names_paper(#[trigger] entries[j]),
    ensures
        first_located(entries) == Some(LocationView { directory, file }),
{
    lemma_first_entry_wins(entries, at);
}

/// In a tree without a `paper.md`, no bibliography is found.
pub proof fn lemma_no_paper<P>(entries: Seq<Option<EntryView<P>>>)
    requires
        forall|j: int| 0 <= j < entries.len() ==> !names_paper(#[trigger] entries[j]),
    ensures
        first_located(entries) is None,
{
    lemma_nothing_located(entries);
}

/// A `paper.md` whose preamble could not be decoded is passed over: one that comes
/// after it in the walk, with a preamble that could, decides.
pub proof fn lemma_undecoded_paper_is_skipped<P>(entries: Seq<Option<EntryView<P>>>, at: int)
    requires
        0 <= at < entries.len(),
        located(entries[at]) is Some,
        forall|j: int|
            0 <= j < at && names_paper(#[trigger] entries[j]) ==> entries[j]->0.bibliography is None,
    ensures
        first_located(entries) == located(entries[at]),
{
    lemma_first_entry_wins(entries, at);
}

} // verus!
