//! Laws of the library, each stated over the spec functions that the
//! public contracts use and proved for every input.

use vstd::prelude::*;

use crate::error::ErrorSpec;
use crate::events::meta_text_of;
use crate::tags::parsed_tags_spec;
use crate::tags::tag_contents_spec;
use crate::vault::all_tags_seq;
use crate::vault::dedup_spec;
use crate::vault::is_note_entry;
use crate::vault::note_of_entry;
use crate::vault::note_tags_of;
use crate::vault::notes_of_entries;
use crate::vault::notes_with_tag;
use crate::vault::EntrySpec;
use crate::vault::NoteSpec;

verus! {

/// The number of note entries in a directory listing.
pub open spec fn note_entry_count(entries: Seq<EntrySpec>) -> nat
    decreases entries.len(),
{
    if entries.len() == 0 {
        0
    } else {
        (if is_note_entry(entries[0]) {
            1nat
        } else {
            0nat
        }) + note_entry_count(entries.drop_first())
    }
}

/// The notes of a listing's note entries, in listing order, assuming each
/// parses; meaningful under that assumption only.
pub open spec fn notes_of_note_entries(entries: Seq<EntrySpec>) -> Seq<NoteSpec>
    decreases entries.len(),
{
    if entries.len() == 0 {
        Seq::<NoteSpec>::empty()
    } else {
        let rest = notes_of_note_entries(entries.drop_first());
        if is_note_entry(entries[0]) {
            seq![note_of_entry(entries[0])->Ok_0] + rest
        } else {
            rest
        }
    }
}

/// Law: over a directory listing whose note entries all parse, the scan
/// succeeds, and yields exactly one note per note entry, in listing order.
pub proof fn lemma_scan_of_valid_vault(entries: Seq<EntrySpec>)
    requires
        forall|i: int|
            0 <= i < entries.len() && is_note_entry(#[trigger] entries[i]) ==> note_tags_of(
                entries[i].contents,
            ) is Ok,
    ensures
        notes_of_entries(entries) is Ok,
        notes_of_entries(entries)->Ok_0 == notes_of_note_entries(entries),
        notes_of_entries(entries)->Ok_0.len() == note_entry_count(entries),
    decreases entries.len(),
{
    if entries.len() == 0 {
    } else {
        let rest = entries.drop_first();
        assert forall|i: int|
            0 <= i < rest.len() && is_note_entry(#[trigger] rest[i]) implies note_tags_of(
            rest[i].contents,
        ) is Ok by {
            assert(rest[i] == entries[i + 1]);
        }
        lemma_scan_of_valid_vault(rest);
        if is_note_entry(entries[0]) {
            assert(note_tags_of(entries[0].contents) is Ok);
        }
    }
}

/// Law: a document with no leading metadata block fails with the
/// metadata-format failure, never with an I/O failure.
pub proof fn lemma_missing_metadata_block(doc: Seq<char>)
    requires
        meta_text_of(doc) is None,
    ensures
        note_tags_of(doc) == Err::<Seq<Seq<char>>, ErrorSpec>(
            ErrorSpec::MetaDataError("Incorrectly formatted metadata tags or missing entirely."@),
        ),
{
}

/// Law: a document whose metadata block holds no tag declaration at all
/// fails with the failure that demands at least one tag.
pub proof fn lemma_metadata_without_tags(doc: Seq<char>, meta: Seq<char>)
    requires
        meta_text_of(doc) == Some(meta),
        tag_contents_spec(meta).len() == 0,
    ensures
        note_tags_of(doc) == Err::<Seq<Seq<char>>, ErrorSpec>(
            ErrorSpec::MetaDataError("Must specify at least one tag."@),
        ),
{
}

/// Law: a document whose metadata block's tag lines declare no token at
/// all — an empty tag set — is a hard parse failure, never an empty note.
pub proof fn lemma_empty_tag_set_rejected(doc: Seq<char>, meta: Seq<char>)
    requires
        meta_text_of(doc) == Some(meta),
        parsed_tags_spec(meta).len() == 0,
    ensures
        note_tags_of(doc) == Err::<Seq<Seq<char>>, ErrorSpec>(
            ErrorSpec::MetaDataError("Must specify at least one tag."@),
        ),
{
}

/// Law: every note of a successful scan carries at least one tag.
pub proof fn lemma_notes_have_tags(entries: Seq<EntrySpec>)
    requires
        notes_of_entries(entries) is Ok,
    ensures
        forall|k: int|
            0 <= k < notes_of_entries(entries)->Ok_0.len() ==> (#[trigger] notes_of_entries(
                entries,
            )->Ok_0[k]).tags.len() >= 1,
    decreases entries.len(),
{
    if entries.len() == 0 {
    } else {
        let e = entries[0];
        let rest = notes_of_entries(entries.drop_first());
        if !is_note_entry(e) {
            lemma_notes_have_tags(entries.drop_first());
        } else {
            assert(note_of_entry(e) is Ok && rest is Ok);
            lemma_notes_have_tags(entries.drop_first());
            let ns = notes_of_entries(entries)->Ok_0;
            assert(ns == seq![note_of_entry(e)->Ok_0] + rest->Ok_0);
            assert(note_of_entry(e)->Ok_0.tags.len() >= 1);
            assert forall|k: int| 0 <= k < ns.len() implies (#[trigger] ns[k]).tags.len() >= 1 by {
                if k == 0 {
                    assert(ns[0] == note_of_entry(e)->Ok_0);
                } else {
                    assert(ns[k] == rest->Ok_0[k - 1]);
                }
            }
        }
    }
}

/// Law: deduplication keeps membership exactly: an element is in
/// `dedup_spec(s)` exactly when it is in `s`.
pub proof fn lemma_dedup_membership(s: Seq<Seq<char>>, x: Seq<char>)
    ensures
        dedup_spec(s).contains(x) == s.contains(x),
    decreases s.len(),
{
    if s.len() == 0 {
        assert(!s.contains(x));
        assert(!dedup_spec(s).contains(x));
    } else {
        let d = s.drop_last();
        lemma_dedup_membership(d, x);
        let prefix = dedup_spec(d);
        if s.contains(x) {
            let i = choose|i: int| 0 <= i < s.len() && s[i] == x;
            if i < s.len() - 1 {
                assert(d[i] == x);
                assert(d.contains(x));
            } else {
                assert(s.last() == x);
            }
        }
        if d.contains(x) {
            let i = choose|i: int| 0 <= i < d.len() && d[i] == x;
            assert(s[i] == x);
            assert(s.contains(x));
        }
        if prefix.contains(s.last()) {
            assert(dedup_spec(s) == prefix);
            if s.last() == x {
                assert(s[s.len() - 1] == x);
                assert(s.contains(x));
            }
        } else {
            assert(dedup_spec(s) == prefix.push(s.last()));
            if prefix.contains(x) {
                let i = choose|i: int| 0 <= i < prefix.len() && prefix[i] == x;
                assert(prefix.push(s.last())[i] == x);
                assert(dedup_spec(s).contains(x));
            }
            if s.last() == x {
                assert(prefix.push(s.last())[prefix.len() as int] == x);
                assert(dedup_spec(s).contains(x));
                assert(s[s.len() - 1] == x);
                assert(s.contains(x));
            }
            if dedup_spec(s).contains(x) {
                let i = choose|i: int|
                    0 <= i < prefix.push(s.last()).len() && prefix.push(s.last())[i] == x;
                if i < prefix.len() {
                    assert(prefix[i] == x);
                    assert(prefix.contains(x));
                } else {
                    assert(s.last() == x);
                }
            }
        }
    }
}

/// Law: deduplication never repeats an element.
pub proof fn lemma_dedup_distinct(s: Seq<Seq<char>>)
    ensures
        forall|i: int, j: int|
            0 <= i < j < dedup_spec(s).len() ==> dedup_spec(s)[i] != dedup_spec(s)[j],
    decreases s.len(),
{
    if s.len() == 0 {
    } else {
        let d = s.drop_last();
        lemma_dedup_distinct(d);
        let prefix = dedup_spec(d);
        if !prefix.contains(s.last()) {
            assert(dedup_spec(s) == prefix.push(s.last()));
            assert forall|i: int, j: int|
                0 <= i < j < dedup_spec(s).len() implies dedup_spec(s)[i] != dedup_spec(s)[j] by {
                if j < prefix.len() {
                    assert(prefix[i] != prefix[j]);
                } else {
                    assert(dedup_spec(s)[j] == s.last());
                    if dedup_spec(s)[i] == s.last() {
                        assert(prefix[i] == s.last());
                        assert(prefix.contains(s.last()));
                    }
                }
            }
        }
    }
}

/// Law: a tag is among a state's tags exactly when some note carries it.
pub proof fn lemma_all_tags_membership(notes: Seq<NoteSpec>, t: Seq<char>)
    ensures
        all_tags_seq(notes).contains(t) == (exists|i: int|
            0 <= i < notes.len() && #[trigger] notes[i].tags.contains(t)),
    decreases notes.len(),
{
    if notes.len() == 0 {
        assert(!all_tags_seq(notes).contains(t));
    } else {
        let d = notes.drop_last();
        lemma_all_tags_membership(d, t);
        let a = all_tags_seq(d);
        let b = notes.last().tags;
        assert(all_tags_seq(notes) == a + b);
        if (a + b).contains(t) {
            let i = choose|i: int| 0 <= i < (a + b).len() && (a + b)[i] == t;
            if i < a.len() {
                assert(a[i] == t);
                assert(a.contains(t));
                let k = choose|k: int| 0 <= k < d.len() && #[trigger] d[k].tags.contains(t);
                assert(notes[k].tags.contains(t));
            } else {
                assert(b[i - a.len()] == t);
                assert(notes[notes.len() - 1].tags.contains(t));
            }
        }
        if exists|i: int| 0 <= i < notes.len() && #[trigger] notes[i].tags.contains(t) {
            let i = choose|i: int| 0 <= i < notes.len() && #[trigger] notes[i].tags.contains(t);
            if i < notes.len() - 1 {
                assert(d[i].tags.contains(t));
                let k = choose|k: int| 0 <= k < a.len() && a[k] == t;
                assert((a + b)[k] == t);
            } else {
                let k = choose|k: int| 0 <= k < b.len() && b[k] == t;
                assert((a + b)[a.len() + k] == t);
            }
            assert((a + b).contains(t));
        }
    }
}

/// Law: the tags of a state hold exactly the tags its notes carry, each
/// exactly once.
pub proof fn lemma_state_tag_set(notes: Seq<NoteSpec>, t: Seq<char>)
    ensures
        dedup_spec(all_tags_seq(notes)).contains(t) == (exists|i: int|
            0 <= i < notes.len() && #[trigger] notes[i].tags.contains(t)),
        forall|i: int, j: int|
            0 <= i < j < dedup_spec(all_tags_seq(notes)).len() ==> dedup_spec(all_tags_seq(notes))[i]
                != dedup_spec(all_tags_seq(notes))[j],
{
    lemma_dedup_membership(all_tags_seq(notes), t);
    lemma_all_tags_membership(notes, t);
    lemma_dedup_distinct(all_tags_seq(notes));
}

/// Law: the tag query returns exactly the notes that carry the tag: every
/// returned note is a note of the state and carries the tag, and every
/// note of the state carrying the tag is returned.
pub proof fn lemma_notes_with_tag_exact(notes: Seq<NoteSpec>, tag: Seq<char>)
    ensures
        forall|k: int|
            0 <= k < notes_with_tag(notes, tag).len() ==> (#[trigger] notes_with_tag(notes, tag)[k])
                .tags.contains(tag) && notes.contains(notes_with_tag(notes, tag)[k]),
        forall|i: int|
            0 <= i < notes.len() && (#[trigger] notes[i]).tags.contains(tag) ==> notes_with_tag(
                notes,
                tag,
            ).contains(notes[i]),
    decreases notes.len(),
{
    if notes.len() == 0 {
    } else {
        let d = notes.drop_last();
        lemma_notes_with_tag_exact(d, tag);
        let prefix = notes_with_tag(d, tag);
        assert forall|k: int|
            0 <= k < d.len() implies #[trigger] d[k] == notes[k] by {}
        assert forall|k: int|
            0 <= k < notes_with_tag(notes, tag).len() implies (#[trigger] notes_with_tag(
            notes,
            tag,
        )[k]).tags.contains(tag) && notes.contains(notes_with_tag(notes, tag)[k]) by {
            if k < prefix.len() {
                assert(notes_with_tag(notes, tag)[k] == prefix[k]);
                let m = choose|m: int| 0 <= m < d.len() && d[m] == prefix[k];
                assert(notes[m] == prefix[k]);
            } else {
                assert(notes_with_tag(notes, tag)[k] == notes.last());
                assert(notes[notes.len() - 1] == notes.last());
            }
        }
        assert forall|i: int|
            0 <= i < notes.len() && (#[trigger] notes[i]).tags.contains(tag) implies notes_with_tag(
            notes,
            tag,
        ).contains(notes[i]) by {
            if i < notes.len() - 1 {
                assert(d[i].tags.contains(tag));
                assert(prefix.contains(d[i]));
                let m = choose|m: int| 0 <= m < prefix.len() && prefix[m] == d[i];
                assert(notes_with_tag(notes, tag)[m] == prefix[m]);
            } else {
                assert(notes.last().tags.contains(tag));
                assert(notes_with_tag(notes, tag)[prefix.len() as int] == notes.last());
            }
        }
    }
}

} // verus!
