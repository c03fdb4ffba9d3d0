//! A cache of loaded tables keyed by version string. Each version is loaded at
//! most once: the cache says which file a version needs, the caller reads it
//! and hands the outcome back, and the table then stays for the cache's life.
use crate::error::VersionlibError;
use crate::format::{decode_table, table_view, TableView};
use crate::table::{load, VersionlibData};
use vstd::prelude::*;
use vstd::string::StringExecFns;

verus! {

/// What `str::trim` returns for the given text.
pub uninterp spec fn trimmed(s: Seq<char>) -> Seq<char>;

/// Relies on `str::trim`: the text without leading and trailing whitespace.
#[verifier::external_body]
fn trim(s: &str) -> (r: &str)
    ensures
        r@ == trimmed(s@),
{
    s.trim()
}

/// `s` with every `from` replaced by `to`.
pub open spec fn replace_char(s: Seq<char>, from: char, to: char) -> Seq<char> {
    s.map_values(|c: char| if c == from { to } else { c })
}

/// Relies on `str::replace` with a one-character pattern and a one-character
/// replacement: every occurrence of `from` becomes `to`, the rest is kept.
#[verifier::external_body]
fn replace(s: &str, from: char, to: char) -> (r: String)
    ensures
        r@ == replace_char(s@, from, to),
{
    s.replace(from, &to.to_string())
}

/// Name of the table file whose version part is `stem`.
pub open spec fn file_name_of_stem(stem: Seq<char>) -> Seq<char> {
    "versionlib-"@ + stem + ".bin"@
}

/// Name of the table file for a dotted version string: dots become dashes and
/// surrounding whitespace is dropped.
pub open spec fn table_file_name_of(version: Seq<char>) -> Seq<char> {
    file_name_of_stem(trimmed(replace_char(version, '.', '-')))
}

/// The table file name for the version part `stem`, such as
/// `versionlib-1-6-323-0.bin` for `1-6-323-0`.
pub fn file_name_for_stem(stem: &str) -> (r: String)
    ensures
        r@ == file_name_of_stem(stem@),
{
    let mut r = "versionlib-".to_owned();
    r.append(stem);
    r.append(".bin");
    r
}

/// The table file name for a dotted version string, such as
/// `versionlib-1-6-323-0.bin` for `1.6.323.0`.
pub fn table_file_name(version: &str) -> (r: String)
    ensures
        r@ == table_file_name_of(version@),
{
    let dashed = replace(version, '.', '-');
    file_name_for_stem(trim(dashed.as_str()))
}

/// The outcome of reading a table file.
pub enum FileRead {
    /// No file exists at the path.
    Missing,
    /// The file exists but could not be read.
    Failed { reason: String },
    /// The file's contents.
    Bytes { bytes: Vec<u8> },
}

/// Whether `(after, r)` is what handing the outcome `read` of reading the file
/// for `version` to a cache that holds `before` gives.
pub open spec fn is_load_step(
    before: Map<Seq<char>, TableView>,
    version: Seq<char>,
    read: FileRead,
    after: Map<Seq<char>, TableView>,
    r: Result<(), VersionlibError>,
) -> bool {
    if before.contains_key(version) {
        after == before && r is Ok
    } else {
        match read {
            FileRead::Missing => after == before && (r matches Err(
                VersionlibError::NotFound { path },
            ) && path@ == table_file_name_of(version)),
            FileRead::Failed { reason } => after == before && r == Err::<(), VersionlibError>(
                VersionlibError::Open { reason },
            ),
            FileRead::Bytes { bytes } => match decode_table(bytes@) {
                Ok(t) => r is Ok && after == before.insert(version, table_view(t)),
                Err(e) => after == before && r == Err::<(), VersionlibError>(e),
            },
        }
    }
}

/// Loaded tables keyed by the version string that they were asked for under.
pub struct Resolver {
    entries: Vec<(String, VersionlibData)>,
    cache: Ghost<Map<Seq<char>, TableView>>,
}

impl View for Resolver {
    type V = Map<Seq<char>, TableView>;

    closed spec fn view(&self) -> Map<Seq<char>, TableView> {
        self.cache@
    }
}

impl Resolver {
    /// The entries hold each version once and agree with the view.
    pub closed spec fn wf(&self) -> bool {
        &&& forall|i: int, j: int|
            0 <= i < j < self.entries.len() ==> self.entries[i].0@ != self.entries[j].0@
        &&& forall|i: int|
            #![trigger self.entries[i]]
            0 <= i < self.entries.len() ==> self.cache@.contains_key(self.entries[i].0@)
                && self.cache@[self.entries[i].0@] == self.entries[i].1@
        &&& forall|k: Seq<char>|
            #![trigger self.cache@.contains_key(k)]
            self.cache@.contains_key(k) ==> exists|i: int|
                0 <= i < self.entries.len() && self.entries[i].0@ == k
    }

    /// A cache with no table loaded.
    pub fn new() -> (r: Resolver)
        ensures
            r.wf(),
            r@ == Map::<Seq<char>, TableView>::empty(),
    {
        Resolver { entries: Vec::new(), cache: Ghost(Map::empty()) }
    }

    fn position(&self, version: &str) -> (r: Option<usize>)
        requires
            self.wf(),
        ensures
            r matches Some(i) ==> i < self.entries.len() && self.entries[i as int].0@ == version@,
            r is None <==> !self@.contains_key(version@),
    {
        let key = version.to_owned();
        let mut i: usize = 0;
        while i < self.entries.len()
            invariant
                self.wf(),
                key@ == version@,
                i <= self.entries.len(),
                forall|j: int| 0 <= j < i ==> self.entries[j].0@ != version@,
            decreases self.entries.len() - i,
        {
            if self.entries[i].0 == key {
                return Some(i);
            }
            i = i + 1;
        }
        None
    }

    /// The table loaded for `version`, if there is one.
    pub fn cached(&self, version: &str) -> (r: Option<&VersionlibData>)
        requires
            self.wf(),
        ensures
            r is Some <==> self@.contains_key(version@),
            r matches Some(t) ==> t@ == self@[version@],
    {
        match self.position(version) {
            Some(i) => Some(&self.entries[i].1),
            None => None,
        }
    }

    /// The name of the file to read for `version`, or `None` where its table
    /// is already loaded and no file needs reading.
    pub fn file_to_read(&self, version: &str) -> (r: Option<String>)
        requires
            self.wf(),
        ensures
            r is None <==> self@.contains_key(version@),
            r matches Some(name) ==> name@ == table_file_name_of(version@),
    {
        if self.position(version).is_some() {
            None
        } else {
            Some(table_file_name(version))
        }
    }

    /// Takes the outcome of reading the file for `version`. A version already
    /// loaded keeps its table and the outcome is ignored; otherwise the bytes
    /// are loaded and the table kept, or the error is returned and nothing
    /// changes.
    pub fn finish_load(&mut self, version: &str, read: FileRead) -> (r: Result<
        (),
        VersionlibError,
    >)
        requires
            old(self).wf(),
        ensures
            final(self).wf(),
            is_load_step(old(self)@, version@, read, final(self)@, r),
    {
        if self.position(version).is_some() {
            return Ok(());
        }
        match read {
            FileRead::Missing => Err(VersionlibError::NotFound { path: table_file_name(version) }),
            FileRead::Failed { reason } => Err(VersionlibError::Open { reason }),
            FileRead::Bytes { bytes } => {
                match load(bytes.as_slice()) {
                    Err(e) => Err(e),
                    Ok(t) => {
                        let ghost view = t@;
                        let ghost loaded = t;
                        let key = version.to_owned();
                        let ghost old_entries = self.entries@;
                        self.entries.push((key, t));
                        self.cache = Ghost(self.cache@.insert(version@, view));
                        assert(self.entries@ == old_entries.push((key, loaded)));
                        assert(self.entries[self.entries.len() - 1].1@ == view);
                        assert forall|k: Seq<char>|
                            #![trigger self.cache@.contains_key(k)]
                            self.cache@.contains_key(k) implies exists|i: int|
                                0 <= i < self.entries.len() && self.entries[i].0@ == k by {
                            if k != version@ {
                                let i = choose|i: int|
                                    0 <= i < old_entries.len() && old_entries[i].0@ == k;
                                assert(self.entries[i] == old_entries[i]);
                            } else {
                                assert(self.entries[self.entries.len() - 1].0@ == k);
                            }
                        }
                        Ok(())
                    },
                }
            },
        }
    }
}

} // verus!
