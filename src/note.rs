use vstd::prelude::*;

verus! {

/// One note: a title, free-form content, and the time it was written.
#[derive(Debug, PartialEq, Eq)]
pub struct Note {
    pub id: usize,
    pub title: String,
    pub content: String,
    pub created_at: String,
}

/// The mathematical value of a [`Note`].
pub struct NoteModel {
    pub id: int,
    pub title: Seq<char>,
    pub content: Seq<char>,
    pub created_at: Seq<char>,
}

impl View for Note {
    type V = NoteModel;

    open spec fn view(&self) -> NoteModel {
        NoteModel {
            id: self.id as int,
            title: self.title@,
            content: self.content@,
            created_at: self.created_at@,
        }
    }
}

/// The values of a sequence of notes.
pub open spec fn models(notes: Seq<Note>) -> Seq<NoteModel> {
    notes.map_values(|n: Note| n@)
}

/// Every note's id is its position in the sequence.
pub open spec fn positional(notes: Seq<NoteModel>) -> bool {
    forall|i: int| 0 <= i < notes.len() ==> #[trigger] notes[i].id == i
}

/// `n` with its id replaced by `id`.
pub open spec fn with_id(n: NoteModel, id: int) -> NoteModel {
    NoteModel { id, title: n.title, content: n.content, created_at: n.created_at }
}

/// `n` with its content replaced by `content`.
pub open spec fn with_content(n: NoteModel, content: Seq<char>) -> NoteModel {
    NoteModel { id: n.id, title: n.title, content, created_at: n.created_at }
}

/// Each note given its position as id, in the same order.
pub open spec fn renumber(notes: Seq<NoteModel>) -> Seq<NoteModel> {
    Seq::new(notes.len(), |i: int| with_id(notes[i], i))
}

} // verus!
