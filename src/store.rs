use vstd::prelude::*;

use crate::note::{models, positional, renumber, with_content, with_id, Note, NoteModel};
use crate::text::{contains_text, lower_of, lowercase, occurs_in};

verus! {

/// The note list together with the editing state around it: which note is
/// selected, the title and content of a note being written, and the search
/// query.
pub struct NoteApp {
    pub notes: Vec<Note>,
    pub selected_note: Option<usize>,
    pub new_note_title: String,
    pub new_note_content: String,
    pub search_query: String,
}

/// The notes that remain after deleting every note whose id is `id`,
/// renumbered to their positions.
pub open spec fn after_delete(notes: Seq<NoteModel>, id: int) -> Seq<NoteModel> {
    renumber(notes.filter(kept_by(id)))
}

/// A deletion of `id` keeps the notes whose id is not `id`.
pub open spec fn kept_by(id: int) -> spec_fn(NoteModel) -> bool {
    |n: NoteModel| n.id != id
}

/// `i` is the first position in `notes` that holds a note with id `id`.
pub open spec fn first_with_id(notes: Seq<NoteModel>, id: int, i: int) -> bool {
    &&& 0 <= i < notes.len()
    &&& notes[i].id == id
    &&& forall|j: int| 0 <= j < i ==> #[trigger] notes[j].id != id
}

/// Some note in `notes` has id `id`.
pub open spec fn has_id(notes: Seq<NoteModel>, id: int) -> bool {
    exists|i: int| 0 <= i < notes.len() && #[trigger] notes[i].id == id
}

/// A note matches a query when the query's lower-case form occurs in the
/// lower-case form of its title or of its content.
pub open spec fn matches_query(query: Seq<char>, n: NoteModel) -> bool {
    occurs_in(lower_of(query), lower_of(n.title)) || occurs_in(lower_of(query), lower_of(n.content))
}

/// The notes that a search for `query` shows: all of them for an empty
/// query, else those that match it, in their order.
pub open spec fn search(notes: Seq<NoteModel>, query: Seq<char>) -> Seq<NoteModel> {
    if query.len() == 0 {
        notes
    } else {
        notes.filter(shown_for(query))
    }
}

/// The test that a non-empty search for `query` applies to each note.
pub open spec fn shown_for(query: Seq<char>) -> spec_fn(NoteModel) -> bool {
    |n: NoteModel| matches_query(query, n)
}

/// The values of the notes that a sequence of references points to.
pub open spec fn ref_models(notes: Seq<&Note>) -> Seq<NoteModel> {
    notes.map_values(|n: &Note| n@)
}

/// On a prefix of a list whose ids are positions, a deletion of `id` keeps
/// the whole prefix when it ends before `id`, and otherwise all of it but
/// position `id`.
proof fn lemma_kept_prefix(notes: Seq<NoteModel>, id: int, n: int)
    requires
        positional(notes),
        0 <= id < notes.len(),
        0 <= n <= notes.len(),
    ensures
        notes.take(n).filter(kept_by(id)) == if n <= id {
            notes.take(n)
        } else {
            notes.take(n).remove(id)
        },
    decreases n,
{
    if n == 0 {
        assert(notes.take(0) =~= Seq::<NoteModel>::empty());
    } else {
        lemma_kept_prefix(notes, id, n - 1);
        assert(notes.take(n) =~= notes.take(n - 1).push(notes[n - 1]));
        notes.take(n - 1).lemma_filter_push(notes[n - 1], kept_by(id));
        assert(notes[n - 1].id == n - 1);
        if n - 1 > id {
            assert(notes.take(n).remove(id) =~= notes.take(n - 1).remove(id).push(notes[n - 1]));
        } else if n - 1 == id {
            assert(notes.take(n).remove(id) =~= notes.take(n - 1));
        }
    }
}

/// Deleting the note at position `id` from a list whose ids are positions
/// removes exactly that note: one note fewer, the others in their order with
/// their titles, contents and timestamps, each renumbered to its new
/// position.
pub proof fn lemma_delete_positional(notes: Seq<NoteModel>, id: int)
    requires
        positional(notes),
        0 <= id < notes.len(),
    ensures
        after_delete(notes, id) == renumber(notes.remove(id)),
        after_delete(notes, id).len() == notes.len() - 1,
        forall|i: int|
            0 <= i < notes.len() - 1 ==> #[trigger] after_delete(notes, id)[i] == with_id(
                notes[if i < id {
                    i
                } else {
                    i + 1
                }],
                i,
            ),
{
    lemma_kept_prefix(notes, id, notes.len() as int);
    assert(notes.take(notes.len() as int) =~= notes);
}

/// Relies on `chrono::Local::now` and `DateTime::format`: the local time now,
/// written as "YYYY-MM-DD HH:MM". Nothing is promised of its value.
#[verifier::external_body]
fn current_timestamp() -> (r: String) {
    chrono::Local::now().format("%Y-%m-%d %H:%M").to_string()
}

impl NoteApp {
    /// The store as it starts from what was read from the backing file:
    /// the notes read, or none where the file was missing or unreadable.
    pub fn from_loaded(loaded: Option<Vec<Note>>) -> (r: NoteApp)
        ensures
            r.notes@ == match loaded {
                Some(v) => v@,
                None => Seq::empty(),
            },
            r.selected_note is None,
            r.new_note_title@.len() == 0,
            r.new_note_content@.len() == 0,
            r.search_query@.len() == 0,
    {
        let notes = match loaded {
            Some(v) => v,
            None => Vec::new(),
        };
        NoteApp {
            notes,
            selected_note: None,
            new_note_title: String::new(),
            new_note_content: String::new(),
            search_query: String::new(),
        }
    }

    /// The values of the notes held.
    pub open spec fn note_models(&self) -> Seq<NoteModel> {
        models(self.notes@)
    }

    /// Adds a note made of the pending title and content, stamped with the
    /// local time now, unless the pending title is empty. See
    /// [`NoteApp::create_note_at`]; the caller persists the list when this
    /// returns `Some`.
    pub fn create_note(&mut self) -> (r: Option<usize>)
        ensures
            old(self).new_note_title@.len() == 0 ==> r is None && *final(self) == *old(self),
            old(self).new_note_title@.len() > 0 ==> {
                &&& r == Some(old(self).notes@.len() as usize)
                &&& final(self).notes@.len() == old(self).notes@.len() + 1
                &&& final(self).note_models().drop_last() == old(self).note_models()
                &&& final(self).note_models().last().id == old(self).notes@.len()
                &&& final(self).note_models().last().title == old(self).new_note_title@
                &&& final(self).note_models().last().content == old(self).new_note_content@
                &&& final(self).selected_note == r
                &&& final(self).new_note_title@.len() == 0
                &&& final(self).new_note_content@.len() == 0
                &&& final(self).search_query == old(self).search_query
            },
            positional(old(self).note_models()) ==> positional(final(self).note_models()),
    {
        if self.new_note_title.as_str().is_empty() {
            return None;
        }
        let created_at = current_timestamp();
        let r = self.create_note_at(created_at);
        proof {
            assert(self.note_models().drop_last() =~= old(self).note_models());
        }
        r
    }

    /// Adds a note made of the pending title and content, stamped
    /// `created_at`, unless the pending title is empty, in which case nothing
    /// changes and the result is `None`. The new note goes to the end of the
    /// list with the list's former length as its id; it becomes the selected
    /// note, the pending title and content are cleared, and its id is
    /// returned.
    pub fn create_note_at(&mut self, created_at: String) -> (r: Option<usize>)
        ensures
            old(self).new_note_title@.len() == 0 ==> r is None && *final(self) == *old(self),
            old(self).new_note_title@.len() > 0 ==> {
                &&& r == Some(old(self).notes@.len() as usize)
                &&& final(self).note_models() == old(self).note_models().push(
                    (NoteModel {
                        id: old(self).notes@.len() as int,
                        title: old(self).new_note_title@,
                        content: old(self).new_note_content@,
                        created_at: created_at@,
                    }),
                )
                &&& final(self).selected_note == r
                &&& final(self).new_note_title@.len() == 0
                &&& final(self).new_note_content@.len() == 0
                &&& final(self).search_query == old(self).search_query
            },
            positional(old(self).note_models()) ==> positional(final(self).note_models()),
    {
        if self.new_note_title.as_str().is_empty() {
            return None;
        }
        let id = self.notes.len();
        let note = Note {
            id,
            title: self.new_note_title.clone(),
            content: self.new_note_content.clone(),
            created_at,
        };
        self.notes.push(note);
        self.selected_note = Some(id);
        self.new_note_title = String::new();
        self.new_note_content = String::new();
        proof {
            assert(self.note_models() =~= old(self).note_models().push(note@));
        }
        Some(id)
    }
    /// Removes every note whose id is `id` and gives each remaining note its
    /// new position as id, keeping their order. A selection of `id` is
    /// cleared. The caller persists the list afterwards.
    pub fn delete_note(&mut self, id: usize)
        ensures
            final(self).note_models() == after_delete(old(self).note_models(), id as int),
            positional(final(self).note_models()),
            final(self).selected_note == (if old(self).selected_note == Some(id) {
                None
            } else {
                old(self).selected_note
            }),
            final(self).new_note_title == old(self).new_note_title,
            final(self).new_note_content == old(self).new_note_content,
            final(self).search_query == old(self).search_query,
    {
        let mut old_notes: Vec<Note> = Vec::new();
        std::mem::swap(&mut old_notes, &mut self.notes);
        let ghost all = models(old_notes@);
        let ghost keep = kept_by(id as int);
        let mut kept: Vec<Note> = Vec::new();
        for note in it: old_notes
            invariant
                all == models(it.seq()),
                keep == kept_by(id as int),
                models(kept@) == renumber(all.take(it.index() as int).filter(keep)),
        {
            let ghost i = it.index() as int;
            let ghost before = all.take(i).filter(keep);
            proof {
                assert(all.take(i + 1) =~= all.take(i).push(all[i]));
                all.take(i).lemma_filter_push(all[i], keep);
                assert(note@ == all[i]);
            }
            if note.id != id {
                let ghost prev = kept@;
                let n = kept.len();
                kept.push(Note {
                    id: n,
                    title: note.title,
                    content: note.content,
                    created_at: note.created_at,
                });
                proof {
                    assert(models(kept@) =~= models(prev).push(with_id(all[i], n as int)));
                    assert(renumber(before.push(all[i])) =~= renumber(before).push(
                        with_id(all[i], n as int),
                    ));
                }
            }
        }
        proof {
            assert(all.take(all.len() as int) =~= all);
        }
        self.notes = kept;
        if let Some(selected) = self.selected_note {
            if selected == id {
                self.selected_note = None;
            }
        }
    }
    /// Replaces the content of the first note whose id is `id`, and returns
    /// whether there was one. Nothing else changes; without such a note
    /// nothing changes at all. The caller persists the list when this
    /// returns `true`.
    pub fn update_note(&mut self, id: usize, content: String) -> (r: bool)
        ensures
            r == has_id(old(self).note_models(), id as int),
            !r ==> *final(self) == *old(self),
            forall|i: int|
                #![trigger first_with_id(old(self).note_models(), id as int, i)]
                first_with_id(old(self).note_models(), id as int, i) ==> final(self).note_models()
                    == old(self).note_models().update(
                    i,
                    with_content(old(self).note_models()[i], content@),
                ),
            final(self).selected_note == old(self).selected_note,
            final(self).new_note_title == old(self).new_note_title,
            final(self).new_note_content == old(self).new_note_content,
            final(self).search_query == old(self).search_query,
            positional(old(self).note_models()) ==> positional(final(self).note_models()),
    {
        let mut i: usize = 0;
        while i < self.notes.len()
            invariant
                *self == *old(self),
                i <= self.notes@.len(),
                forall|j: int| 0 <= j < i ==> #[trigger] self.notes@[j].id != id,
            decreases self.notes@.len() - i,
        {
            if self.notes[i].id == id {
                let ghost before = self.note_models();
                let mut note = self.notes.remove(i);
                note.content = content;
                self.notes.insert(i, note);
                proof {
                    assert(self.note_models() =~= before.update(
                        i as int,
                        with_content(before[i as int], content@),
                    ));
                    assert(before[i as int].id == id);
                    assert forall|k: int| first_with_id(before, id as int, k) implies k == i by {
                        if k < i {
                            assert(self.notes@[k].id != id);
                        }
                        if k > i {
                            assert(before[i as int].id == id);
                        }
                    }
                }
                return true;
            }
            i = i + 1;
        }
        proof {
            assert forall|j: int| 0 <= j < self.notes@.len() implies #[trigger] self.note_models()[j].id
                != id by {
                assert(self.notes@[j].id != id);
            }
        }
        false
    }

    /// The notes that the current search query shows: every note, in order,
    /// for an empty query; otherwise, in order, each note whose title or
    /// content holds the query, ignoring case.
    pub fn filtered_notes(&self) -> (r: Vec<&Note>)
        ensures
            ref_models(r@) == search(self.note_models(), self.search_query@),
    {
        let mut r: Vec<&Note> = Vec::new();
        let n = self.notes.len();
        if self.search_query.as_str().is_empty() {
            for i in 0..n
                invariant
                    n == self.notes@.len(),
                    ref_models(r@) == self.note_models().take(i as int),
            {
                let ghost prev = r@;
                r.push(&self.notes[i]);
                proof {
                    assert(ref_models(r@) =~= ref_models(prev).push(self.note_models()[i as int]));
                    assert(ref_models(r@) =~= self.note_models().take(i + 1));
                }
            }
            proof {
                assert(self.note_models().take(n as int) =~= self.note_models());
            }
            return r;
        }
        let query = lowercase(self.search_query.as_str());
        let ghost all = self.note_models();
        let ghost shown = shown_for(self.search_query@);
        for i in 0..n
            invariant
                n == self.notes@.len(),
                all == self.note_models(),
                shown == shown_for(self.search_query@),
                query@ == lower_of(self.search_query@),
                ref_models(r@) == all.take(i as int).filter(shown),
        {
            let note = &self.notes[i];
            proof {
                assert(all.take(i + 1) =~= all.take(i as int).push(all[i as int]));
                all.take(i as int).lemma_filter_push(all[i as int], shown);
            }
            let ghost prev = r@;
            if contains_text(lowercase(note.title.as_str()).as_str(), query.as_str())
                || contains_text(lowercase(note.content.as_str()).as_str(), query.as_str()) {
                r.push(note);
                proof {
                    assert(ref_models(r@) =~= ref_models(prev).push(all[i as int]));
                }
            }
        }
        proof {
            assert(all.take(n as int) =~= all);
        }
        r
    }
}

} // verus!
