//! Notes, the vault state that aggregates them, and the vault handle.
//!
//! A note is built from one discovered file: its name is the file's stem,
//! and its tags are parsed out of the file's metadata block. The state
//! aggregates the notes of every note file among a directory's entries, in
//! listing order, aborting on the first failure; it answers tag-set and
//! tag-membership queries. The vault binds a root path to its derived name
//! and its state.

use vstd::prelude::*;

use crate::error::Error;
use crate::error::ErrorSpec;
use crate::events::lex_events;
use crate::events::locate_metadata;
use crate::events::meta_text_of;
use crate::paths::file_name;
use crate::paths::file_name_spec;
use crate::paths::file_stem;
use crate::paths::file_stem_spec;
use crate::paths::is_md_path;
use crate::paths::path_is_md;
use crate::tags::parse_tag_text;
use crate::tags::tags_result_spec;

verus! {

/// Spec-level model of a [`Note`].
pub struct NoteSpec {
    pub name: Seq<char>,
    pub path: Seq<char>,
    pub tags: Seq<Seq<char>>,
}

/// One discovered document: its name (the file's stem), its filesystem
/// location, and its tag sequence in declaration order, not deduplicated.
#[derive(Debug)]
pub struct Note {
    pub name: String,
    pub path: String,
    pub tags: Vec<String>,
}

impl DeepView for Note {
    type V = NoteSpec;

    open spec fn deep_view(&self) -> NoteSpec {
        NoteSpec { name: self.name@, path: self.path@, tags: self.tags.deep_view() }
    }
}

/// Spec-level model of a [`VaultEntry`].
pub struct EntrySpec {
    pub path: Seq<char>,
    pub is_file: bool,
    pub contents: Seq<char>,
}

/// One entry of a vault directory's listing, as the caller that performed
/// the listing hands it in: the entry's path, whether it is a regular
/// file, and — for note files — its full text. The contents of entries
/// that are not note files are ignored.
#[derive(Debug)]
pub struct VaultEntry {
    pub path: String,
    pub is_file: bool,
    pub contents: String,
}

impl DeepView for VaultEntry {
    type V = EntrySpec;

    open spec fn deep_view(&self) -> EntrySpec {
        EntrySpec { path: self.path@, is_file: self.is_file, contents: self.contents@ }
    }
}

/// Whether a directory entry is taken up as a note: a regular file whose
/// extension is exactly `md`.
pub open spec fn is_note_entry(e: EntrySpec) -> bool {
    e.is_file && is_md_path(e.path)
}

/// What parsing one document's tag declarations yields: the tag sequence
/// of its metadata block, or a metadata failure when the document has no
/// leading metadata block, or has one without any tag declaration.
pub open spec fn note_tags_of(doc: Seq<char>) -> Result<Seq<Seq<char>>, ErrorSpec> {
    match meta_text_of(doc) {
        Some(meta) => tags_result_spec(meta),
        None => Err(
            ErrorSpec::MetaDataError("Incorrectly formatted metadata tags or missing entirely."@),
        ),
    }
}

/// The stem of a path's final component; meaningful only where one exists.
pub open spec fn stem_of(p: Seq<char>) -> Seq<char> {
    match file_stem_spec(p) {
        Some(st) => st,
        None => Seq::<char>::empty(),
    }
}

/// The note built from one note entry: its name is the entry's file stem,
/// its path the entry's path, its tags parsed from the entry's contents.
pub open spec fn note_of_entry(e: EntrySpec) -> Result<NoteSpec, ErrorSpec> {
    match note_tags_of(e.contents) {
        Ok(tags) => Ok(NoteSpec { name: stem_of(e.path), path: e.path, tags }),
        Err(err) => Err(err),
    }
}

/// The notes of a directory listing, in listing order: entries that are
/// not note files are skipped, and the first failing note aborts the whole
/// scan with its error.
pub open spec fn notes_of_entries(entries: Seq<EntrySpec>) -> Result<Seq<NoteSpec>, ErrorSpec>
    decreases entries.len(),
{
    if entries.len() == 0 {
        Ok(Seq::<NoteSpec>::empty())
    } else {
        let e = entries[0];
        let rest = notes_of_entries(entries.drop_first());
        if !is_note_entry(e) {
            rest
        } else {
            match note_of_entry(e) {
                Err(err) => Err(err),
                Ok(n) => match rest {
                    Err(err) => Err(err),
                    Ok(ns) => Ok(seq![n] + ns),
                },
            }
        }
    }
}

/// Every tag of every note, in note order then declaration order.
pub open spec fn all_tags_seq(notes: Seq<NoteSpec>) -> Seq<Seq<char>>
    decreases notes.len(),
{
    if notes.len() == 0 {
        Seq::<Seq<char>>::empty()
    } else {
        all_tags_seq(notes.drop_last()) + notes.last().tags
    }
}

/// `s` with every repeated element dropped: each element's first
/// occurrence, in order.
pub open spec fn dedup_spec(s: Seq<Seq<char>>) -> Seq<Seq<char>>
    decreases s.len(),
{
    if s.len() == 0 {
        Seq::<Seq<char>>::empty()
    } else {
        let prefix = dedup_spec(s.drop_last());
        if prefix.contains(s.last()) {
            prefix
        } else {
            prefix.push(s.last())
        }
    }
}

/// The notes of `notes` whose tag sequence contains `tag`, in order.
pub open spec fn notes_with_tag(notes: Seq<NoteSpec>, tag: Seq<char>) -> Seq<NoteSpec>
    decreases notes.len(),
{
    if notes.len() == 0 {
        Seq::<NoteSpec>::empty()
    } else {
        let prefix = notes_with_tag(notes.drop_last(), tag);
        if notes.last().tags.contains(tag) {
            prefix.push(notes.last())
        } else {
            prefix
        }
    }
}

/// Whether some element of `v` equals `s`, compared as strings.
fn contains_string(v: &Vec<String>, s: &String) -> (r: bool)
    ensures
        r == v.deep_view().contains(s@),
{
    let mut i: usize = 0;
    while i < v.len()
        invariant
            i <= v@.len(),
            forall|k: int| 0 <= k < i ==> v.deep_view()[k] != s@,
        decreases v@.len() - i,
    {
        if v[i].eq(s) {
            proof {
                assert(v.deep_view()[i as int] == s@);
            }
            return true;
        }
        i = i + 1;
    }
    proof {
        assert(forall|k: int| 0 <= k < v.deep_view().len() ==> v.deep_view()[k] != s@);
    }
    false
}

/// A copy of a note, field by field.
fn clone_note(n: &Note) -> (r: Note)
    ensures
        r.deep_view() == n.deep_view(),
{
    let mut tags: Vec<String> = Vec::new();
    let mut i: usize = 0;
    proof {
        assert(tags.deep_view() =~= n.tags.deep_view().take(0));
    }
    while i < n.tags.len()
        invariant
            i <= n.tags@.len(),
            tags.deep_view() == n.tags.deep_view().take(i as int),
        decreases n.tags@.len() - i,
    {
        let ghost prev = tags.deep_view();
        let t = n.tags[i].clone();
        tags.push(t);
        proof {
            assert(tags.deep_view() =~= prev.push(t@));
            assert(n.tags.deep_view().take(i + 1) =~= prev.push(n.tags.deep_view()[i as int]));
        }
        i = i + 1;
    }
    proof {
        assert(n.tags.deep_view().take(n.tags.deep_view().len() as int) =~= n.tags.deep_view());
    }
    Note { name: n.name.clone(), path: n.path.clone(), tags }
}

/// The aggregate of all notes of one vault directory, in listing order.
#[derive(Debug)]
pub struct State {
    pub notes: Vec<Note>,
}

impl State {
    /// Builds the state from a directory listing: every note entry is
    /// parsed into a note, in listing order; the first failure aborts the
    /// whole construction with that failure.
    pub fn new(entries: Vec<VaultEntry>) -> (r: Result<State, Error>)
        ensures
            match r {
                Ok(st) => notes_of_entries(entries.deep_view()) == Ok::<Seq<NoteSpec>, ErrorSpec>(
                    st.notes.deep_view(),
                ),
                Err(e) => notes_of_entries(entries.deep_view()) == Err::<Seq<NoteSpec>, ErrorSpec>(
                    e.deep_view(),
                ),
            },
    {
        let mut notes: Vec<Note> = Vec::new();
        let mut i: usize = 0;
        proof {
            assert(entries.deep_view().skip(0) =~= entries.deep_view());
            assert(notes.deep_view() =~= Seq::<NoteSpec>::empty());
        }
        while i < entries.len()
            invariant
                i <= entries@.len(),
                (match notes_of_entries(entries.deep_view().skip(i as int)) {
                    Ok(ns) => notes_of_entries(entries.deep_view()) == Ok::<
                        Seq<NoteSpec>,
                        ErrorSpec,
                    >(notes.deep_view() + ns),
                    Err(e) => notes_of_entries(entries.deep_view()) == Err::<
                        Seq<NoteSpec>,
                        ErrorSpec,
                    >(e),
                }),
            decreases entries@.len() - i,
        {
            proof {
                assert(entries.deep_view().skip(i as int).drop_first() =~= entries.deep_view().skip(
                    i + 1,
                ));
                assert(entries.deep_view().skip(i as int)[0] == entries.deep_view()[i as int]);
            }
            let entry = &entries[i];
            if entry.is_file && path_is_md(entry.path.as_str()) {
                match Self::_parse_tags(entry.contents.as_str()) {
                    Ok(tags) => {
                        let name = match file_stem(entry.path.as_str()) {
                            Some(st) => st,
                            None => unreached(),
                        };
                        let ghost prev = notes.deep_view();
                        let note = Note { name, path: entry.path.clone(), tags };
                        let ghost nspec = note.deep_view();
                        notes.push(note);
                        proof {
                            let dv = entries.deep_view();
                            assert(notes.deep_view() =~= prev.push(nspec));
                            assert(note_of_entry(dv[i as int]) == Ok::<NoteSpec, ErrorSpec>(nspec));
                            if notes_of_entries(dv.skip(i + 1)) is Ok {
                                let ns2 = notes_of_entries(dv.skip(i + 1)) ->Ok_0;
                                assert(notes_of_entries(dv.skip(i as int)) == Ok::<
                                    Seq<NoteSpec>,
                                    ErrorSpec,
                                >(seq![nspec] + ns2));
                                assert(prev + (seq![nspec] + ns2) =~= prev.push(nspec) + ns2);
                            }
                        }
                    },
                    Err(e) => {
                        return Err(e);
                    },
                }
            }
            i = i + 1;
        }
        proof {
            assert(entries.deep_view().skip(i as int) =~= Seq::<EntrySpec>::empty());
            assert(notes.deep_view() + Seq::<NoteSpec>::empty() =~= notes.deep_view());
        }
        Ok(State { notes })
    }

    /// Parses the tag sequence out of one note document's full text: the
    /// document's metadata block is located in its event stream, and the
    /// block's tag declarations are parsed.
    pub fn _parse_tags(contents: &str) -> (r: Result<Vec<String>, Error>)
        ensures
            match r {
                Ok(tags) => note_tags_of(contents@) == Ok::<Seq<Seq<char>>, ErrorSpec>(
                    tags.deep_view(),
                ),
                Err(e) => note_tags_of(contents@) == Err::<Seq<Seq<char>>, ErrorSpec>(
                    e.deep_view(),
                ),
            },
    {
        let events = lex_events(contents);
        match locate_metadata(&events) {
            Some(meta) => Self::_parse_tag_text(meta.as_str()),
            None => Err(
                Error::MetaDataError(
                    String::from_str("Incorrectly formatted metadata tags or missing entirely."),
                ),
            ),
        }
    }

    /// Parses the tag declarations of a located metadata text.
    pub fn _parse_tag_text(tag_text: &str) -> (r: Result<Vec<String>, Error>)
        ensures
            match r {
                Ok(tags) => tags_result_spec(tag_text@) == Ok::<Seq<Seq<char>>, ErrorSpec>(
                    tags.deep_view(),
                ),
                Err(e) => tags_result_spec(tag_text@) == Err::<Seq<Seq<char>>, ErrorSpec>(
                    e.deep_view(),
                ),
            },
    {
        parse_tag_text(tag_text)
    }

    /// The set of every distinct tag across all notes: each tag's first
    /// occurrence, in order of appearance.
    pub fn tags(&self) -> (r: Vec<String>)
        ensures
            r.deep_view() == dedup_spec(all_tags_seq(self.notes.deep_view())),
    {
        let mut r: Vec<String> = Vec::new();
        let mut i: usize = 0;
        proof {
            assert(self.notes.deep_view().take(0) =~= Seq::<NoteSpec>::empty());
            assert(r.deep_view() =~= Seq::<Seq<char>>::empty());
        }
        while i < self.notes.len()
            invariant
                i <= self.notes@.len(),
                r.deep_view() == dedup_spec(all_tags_seq(self.notes.deep_view().take(i as int))),
            decreases self.notes@.len() - i,
        {
            let note = &self.notes[i];
            let mut j: usize = 0;
            proof {
                assert(note.tags.deep_view().take(0) =~= Seq::<Seq<char>>::empty());
                assert(all_tags_seq(self.notes.deep_view().take(i as int))
                    + note.tags.deep_view().take(0) =~= all_tags_seq(
                    self.notes.deep_view().take(i as int),
                ));
            }
            while j < note.tags.len()
                invariant
                    j <= note.tags@.len(),
                    i < self.notes@.len(),
                    note.deep_view() == self.notes.deep_view()[i as int],
                    r.deep_view() == dedup_spec(
                        all_tags_seq(self.notes.deep_view().take(i as int))
                            + note.tags.deep_view().take(j as int),
                    ),
                decreases note.tags@.len() - j,
            {
                let ghost q = all_tags_seq(self.notes.deep_view().take(i as int))
                    + note.tags.deep_view().take(j as int);
                let t = &note.tags[j];
                proof {
                    assert(q.push(t@) =~= all_tags_seq(self.notes.deep_view().take(i as int))
                        + note.tags.deep_view().take(j + 1));
                    assert(q.push(t@).drop_last() =~= q);
                }
                if !contains_string(&r, t) {
                    let ghost prev = r.deep_view();
                    let owned = t.clone();
                    r.push(owned);
                    proof {
                        assert(r.deep_view() =~= prev.push(t@));
                    }
                }
                j = j + 1;
            }
            proof {
                assert(note.tags.deep_view().take(note.tags.deep_view().len() as int)
                    =~= note.tags.deep_view());
                assert(self.notes.deep_view().take(i + 1).drop_last() =~= self.notes.deep_view()
                    .take(i as int));
                assert(self.notes.deep_view().take(i + 1).last()
                    == self.notes.deep_view()[i as int]);
                assert(all_tags_seq(self.notes.deep_view().take(i + 1)) =~= all_tags_seq(
                    self.notes.deep_view().take(i as int),
                ) + note.tags.deep_view());
            }
            i = i + 1;
        }
        proof {
            assert(self.notes.deep_view().take(self.notes.deep_view().len() as int)
                =~= self.notes.deep_view());
        }
        r
    }

    /// The notes whose tag sequence contains a token exactly equal to
    /// `tag`, in listing order.
    pub fn notes_from_tag(&self, tag: String) -> (r: Vec<Note>)
        ensures
            r.deep_view() == notes_with_tag(self.notes.deep_view(), tag@),
    {
        let mut r: Vec<Note> = Vec::new();
        let mut i: usize = 0;
        proof {
            assert(self.notes.deep_view().take(0) =~= Seq::<NoteSpec>::empty());
            assert(r.deep_view() =~= Seq::<NoteSpec>::empty());
        }
        while i < self.notes.len()
            invariant
                i <= self.notes@.len(),
                r.deep_view() == notes_with_tag(self.notes.deep_view().take(i as int), tag@),
            decreases self.notes@.len() - i,
        {
            let note = &self.notes[i];
            proof {
                assert(self.notes.deep_view().take(i + 1).drop_last() =~= self.notes.deep_view()
                    .take(i as int));
                assert(self.notes.deep_view().take(i + 1).last()
                    == self.notes.deep_view()[i as int]);
            }
            if contains_string(&note.tags, &tag) {
                let ghost prev = r.deep_view();
                let copy = clone_note(note);
                r.push(copy);
                proof {
                    assert(r.deep_view() =~= prev.push(self.notes.deep_view()[i as int]));
                }
            }
            i = i + 1;
        }
        proof {
            assert(self.notes.deep_view().take(self.notes.deep_view().len() as int)
                =~= self.notes.deep_view());
        }
        r
    }
}

/// The top-level handle: a vault directory's path, its derived name, and
/// the state built from its listing.
#[derive(Debug)]
pub struct Vault {
    pub vault_path: String,
    pub name: String,
    /// Reserved for future extension; construction always leaves it unset.
    pub created_on: Option<u64>,
    pub state: State,
}

impl Vault {
    /// Builds the vault for a root path out of that directory's entries.
    /// The vault's name is the path's final component; a path without one
    /// is rejected. The state indexes every note entry, in listing order,
    /// and the first per-note failure aborts the whole construction.
    pub fn new(path: String, entries: Vec<VaultEntry>) -> (r: Result<Vault, Error>)
        ensures
            match r {
                Ok(v) => file_name_spec(path@) == Some(v.name@) && v.vault_path@ == path@
                    && v.created_on is None && notes_of_entries(entries.deep_view()) == Ok::<
                    Seq<NoteSpec>,
                    ErrorSpec,
                >(v.state.notes.deep_view()),
                Err(e) => (file_name_spec(path@) is None && e.deep_view() == ErrorSpec::InvalidPath)
                    || (file_name_spec(path@) is Some && notes_of_entries(entries.deep_view())
                    == Err::<Seq<NoteSpec>, ErrorSpec>(e.deep_view())),
            },
    {
        let name = match file_name(path.as_str()) {
            Some(n) => n,
            None => {
                return Err(Error::InvalidPath);
            },
        };
        let state = match State::new(entries) {
            Ok(st) => st,
            Err(e) => {
                return Err(e);
            },
        };
        Ok(Vault { vault_path: path, name, created_on: None, state })
    }
}

} // verus!
