//! Directory listings and the user's home directory.

use crate::text::{join_text, text_result};
use vstd::prelude::*;

verus! {

/// What the file system tells of an entry: whether it is a directory, and
/// its length in bytes.
#[derive(Clone, Copy, Debug, PartialEq, Eq, Structural)]
pub struct EntryKind {
    pub is_dir: bool,
    pub len: u64,
}

/// One entry of a directory as it was read: its name, its full path, and
/// its metadata where they could be read.
#[derive(Clone, Debug, PartialEq, Eq)]
pub struct RawEntry {
    pub name: String,
    pub path: String,
    pub metadata: Option<EntryKind>,
}

/// One entry of a directory listing.
#[derive(Clone, Debug, PartialEq, Eq)]
pub struct FileEntry {
    pub name: String,
    pub path: String,
    pub is_dir: bool,
    pub size: u64,
}

/// What an entry of a listing holds.
pub struct FileEntryView {
    pub name: Seq<char>,
    pub path: Seq<char>,
    pub is_dir: bool,
    pub size: u64,
}

impl View for FileEntry {
    type V = FileEntryView;

    open spec fn view(&self) -> FileEntryView {
        FileEntryView { name: self.name@, path: self.path@, is_dir: self.is_dir, size: self.size }
    }
}

/// What the entries of a listing hold.
pub open spec fn entry_views(v: Seq<FileEntry>) -> Seq<FileEntryView> {
    Seq::new(v.len(), |i: int| v[i]@)
}

/// Whether a name marks a hidden entry: it starts with a dot.
pub open spec fn is_hidden(name: Seq<char>) -> bool {
    name.len() > 0 && name[0] == '.'
}

/// The listed form of an entry. A directory has the size 0, and so has an
/// entry whose metadata could not be read, which is listed as a file.
pub open spec fn listed(raw: RawEntry) -> FileEntryView {
    FileEntryView {
        name: raw.name@,
        path: raw.path@,
        is_dir: match raw.metadata {
            Some(kind) => kind.is_dir,
            None => false,
        },
        size: match raw.metadata {
            Some(kind) => if kind.is_dir {
                0
            } else {
                kind.len
            },
            None => 0,
        },
    }
}

/// The listing of a directory: its entries that are not hidden, in the
/// order in which they were read.
pub open spec fn listing(raw: Seq<RawEntry>) -> Seq<FileEntryView>
    decreases raw.len(),
{
    if raw.len() == 0 {
        Seq::empty()
    } else if is_hidden(raw.last().name@) {
        listing(raw.drop_last())
    } else {
        listing(raw.drop_last()).push(listed(raw.last()))
    }
}

/// The message for a directory that could not be read.
pub open spec fn unreadable_directory(cause: Seq<char>) -> Seq<char> {
    "Cannot read directory: "@ + cause
}

/// What a request for a listing returns, for what reading the directory
/// gave: the listing, or the message with the cause of the failure.
pub open spec fn listing_outcome(read: Result<Vec<RawEntry>, String>) -> Result<
    Seq<FileEntryView>,
    Seq<char>,
> {
    match read {
        Ok(raw) => Ok(listing(raw@)),
        Err(cause) => Err(unreadable_directory(cause@)),
    }
}

/// Whether a name marks a hidden entry.
pub fn is_hidden_name(name: &str) -> (hidden: bool)
    ensures
        hidden == is_hidden(name@),
{
    let mut it = name.chars();
    match it.next() {
        Some(c) => c == '.',
        None => false,
    }
}

/// Lists the entries of a directory that are not hidden.
pub fn list_entries(raw: &Vec<RawEntry>) -> (entries: Vec<FileEntry>)
    ensures
        entry_views(entries@) == listing(raw@),
{
    let mut entries: Vec<FileEntry> = Vec::new();
    let mut i: usize = 0;
    assert(raw@.take(0) =~= Seq::<RawEntry>::empty());
    assert(entry_views(entries@) =~= listing(raw@.take(0)));
    while i < raw.len()
        invariant
            i <= raw.len(),
            entry_views(entries@) == listing(raw@.take(i as int)),
        decreases raw.len() - i,
    {
        let entry = &raw[i];
        proof {
            let next = raw@.take(i + 1);
            assert(next.drop_last() =~= raw@.take(i as int));
            assert(next.last() == raw@[i as int]);
        }
        if !is_hidden_name(entry.name.as_str()) {
            let (is_dir, size) = match entry.metadata {
                Some(kind) => (
                    kind.is_dir,
                    if kind.is_dir {
                        0
                    } else {
                        kind.len
                    },
                ),
                None => (false, 0),
            };
            let ghost before = entries@;
            let item = FileEntry { name: entry.name.clone(), path: entry.path.clone(), is_dir, size };
            assert(item@ == listed(*entry));
            entries.push(item);
            assert(entry_views(entries@) =~= entry_views(before).push(listed(*entry)));
        }
        i += 1;
    }
    assert(raw@.take(i as int) =~= raw@);
    entries
}

/// Answers a request for a directory listing from what reading the
/// directory gave.
pub fn list_directory(read: Result<Vec<RawEntry>, String>) -> (r: Result<Vec<FileEntry>, String>)
    ensures
        match r {
            Ok(entries) => listing_outcome(read) == Ok::<Seq<FileEntryView>, Seq<char>>(
                entry_views(entries@),
            ),
            Err(message) => listing_outcome(read) == Err::<Seq<FileEntryView>, Seq<char>>(
                message@,
            ),
        },
{
    match read {
        Ok(raw) => Ok(list_entries(&raw)),
        Err(cause) => Err(join_text("Cannot read directory: ", cause.as_str())),
    }
}

/// What was found of a file that a command reads.
#[derive(Clone, Debug, PartialEq, Eq)]
pub enum FileRead {
    /// There is no such file.
    Absent,
    /// The file is there, and reading it failed with this message.
    Unreadable(String),
    /// The file's text.
    Text(String),
}

impl FileRead {
    /// Whether the file is there.
    pub open spec fn found(self) -> bool {
        !(self is Absent)
    }

    /// The file's text, or the empty text where it was not read.
    pub open spec fn text_or_empty(self) -> Seq<char> {
        match self {
            FileRead::Text(text) => text@,
            _ => Seq::empty(),
        }
    }
}

/// The home directory that `dirs::home_dir` finds, as text. Nothing is
/// claimed of it: it depends on the user and the environment.
#[verifier::external_body]
fn home_dir() -> (home: Option<String>) {
    dirs::home_dir().map(|path| path.to_string_lossy().to_string())
}

/// What a request for the home directory returns, for what was found.
pub open spec fn home_result(home: Option<String>) -> Result<Seq<char>, Seq<char>> {
    match home {
        Some(path) => Ok(path@),
        None => Err("Cannot determine home directory"@),
    }
}

/// Answers a request for the home directory from what was found.
pub fn home_dir_outcome(home: Option<String>) -> (r: Result<String, String>)
    ensures
        text_result(r) == home_result(home),
{
    match home {
        Some(path) => Ok(path),
        None => Err("Cannot determine home directory".to_owned()),
    }
}

/// The user's home directory, or a message where none is found.
pub fn get_home_dir() -> (r: Result<String, String>)
    ensures
        r is Err ==> r->Err_0@ == "Cannot determine home directory"@,
{
    home_dir_outcome(home_dir())
}

/// The directory that a listing is made of: the one asked for, or, where
/// none is named, the home directory, or the root where no home is found.
pub open spec fn directory_for(path: Seq<char>, home: Option<String>) -> Seq<char> {
    if path.len() > 0 {
        path
    } else {
        match home {
            Some(dir) => dir@,
            None => "/"@,
        }
    }
}

/// Picks the directory that a listing is made of.
pub fn choose_directory(path: &str, home: Option<String>) -> (dir: String)
    ensures
        dir@ == directory_for(path@, home),
{
    if !path.is_empty() {
        path.to_owned()
    } else {
        match home {
            Some(dir) => dir,
            None => "/".to_owned(),
        }
    }
}

/// The directory that a listing is made of, the home directory looked up
/// where none is named.
pub fn directory_to_list(path: &str) -> (dir: String)
    ensures
        path@.len() > 0 ==> dir@ == path@,
{
    if !path.is_empty() {
        path.to_owned()
    } else {
        choose_directory(path, home_dir())
    }
}

/// The home directory for a command that keeps its files there, or the
/// message where none is found.
pub open spec fn required_home(home: Option<String>) -> Result<Seq<char>, Seq<char>> {
    match home {
        Some(dir) => Ok(dir@),
        None => Err("No home directory"@),
    }
}

/// Answers for the home directory of a command that keeps its files there.
pub fn require_home(home: Option<String>) -> (r: Result<String, String>)
    ensures
        text_result(r) == required_home(home),
{
    match home {
        Some(dir) => Ok(dir),
        None => Err("No home directory".to_owned()),
    }
}

/// The home directory for a command that keeps its files there, looked up.
pub fn home_for_files() -> (r: Result<String, String>)
    ensures
        r is Err ==> r->Err_0@ == "No home directory"@,
{
    require_home(home_dir())
}

/// A listing holds no hidden entry, and no more entries than were read.
pub proof fn lemma_listing_hides(raw: Seq<RawEntry>)
    ensures
        listing(raw).len() <= raw.len(),
        forall|i: int| 0 <= i < listing(raw).len() ==> !is_hidden(#[trigger] listing(raw)[i].name),
    decreases raw.len(),
{
    if raw.len() > 0 {
        lemma_listing_hides(raw.drop_last());
    }
}

/// Where no entry is hidden, the listing holds each entry that was read, in
/// the order in which it was read.
pub proof fn lemma_listing_keeps_visible(raw: Seq<RawEntry>)
    requires
        forall|i: int| 0 <= i < raw.len() ==> !is_hidden(#[trigger] raw[i].name@),
    ensures
        listing(raw) == raw.map_values(|e: RawEntry| listed(e)),
    decreases raw.len(),
{
    if raw.len() > 0 {
        let front = raw.drop_last();
        assert forall|i: int| 0 <= i < front.len() implies !is_hidden(#[trigger] front[i].name@) by {
            assert(front[i] == raw[i]);
        }
        lemma_listing_keeps_visible(front);
        assert(!is_hidden(raw[raw.len() - 1].name@));
        assert(listing(raw) =~= raw.map_values(|e: RawEntry| listed(e)));
    } else {
        assert(listing(raw) =~= raw.map_values(|e: RawEntry| listed(e)));
    }
}

} // verus!
