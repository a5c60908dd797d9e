//! Notes, and the request and response shapes of note operations.

use vstd::prelude::*;

use crate::datetime::FormattedDateTime;

verus! {

/// A stored note. Timestamps are microseconds since the Unix epoch, UTC.
#[derive(Debug, Clone)]
pub struct Note {
    /// The identifier that storage assigned.
    pub id: i64,
    pub title: String,
    pub content: String,
    /// When the note was created.
    pub created_at: i64,
    /// When the note was last changed.
    pub updated_at: i64,
}

/// A note as plain values.
pub struct NoteView {
    pub id: i64,
    pub title: Seq<char>,
    pub content: Seq<char>,
    pub created_at: i64,
    pub updated_at: i64,
}

impl View for Note {
    type V = NoteView;

    open spec fn view(&self) -> NoteView {
        NoteView {
            id: self.id,
            title: self.title@,
            content: self.content@,
            created_at: self.created_at,
            updated_at: self.updated_at,
        }
    }
}

impl Note {
    /// A copy of the note.
    pub fn duplicate(&self) -> (r: Note)
        ensures
            r@ == self@,
    {
        Note {
            id: self.id,
            title: self.title.clone(),
            content: self.content.clone(),
            created_at: self.created_at,
            updated_at: self.updated_at,
        }
    }
}

/// Request body for creating a note.
#[derive(Debug, Clone)]
pub struct CreateNoteRequest {
    pub title: String,
    pub content: String,
}

/// Request body for a partial update: a present field replaces the stored
/// one, an absent field leaves it as it is.
#[derive(Debug, Clone)]
pub struct UpdateNoteRequest {
    pub title: Option<String>,
    pub content: Option<String>,
}

/// The characters of an optional string.
pub open spec fn opt_view(o: Option<String>) -> Option<Seq<char>> {
    match o {
        Some(s) => Some(s@),
        None => None,
    }
}

/// The note after a partial update at time `now`: present fields replace
/// the stored ones, and the update time is always refreshed.
pub open spec fn merged(current: NoteView, title: Option<Seq<char>>, content: Option<Seq<char>>, now: i64) -> NoteView {
    NoteView {
        id: current.id,
        title: match title {
            Some(t) => t,
            None => current.title,
        },
        content: match content {
            Some(c) => c,
            None => current.content,
        },
        created_at: current.created_at,
        updated_at: now,
    }
}

/// Applies a partial update to a note at time `now`.
pub fn apply_update_fields(current: Note, request: UpdateNoteRequest, now: i64) -> (r: Note)
    ensures
        r@ == merged(current@, opt_view(request.title), opt_view(request.content), now),
{
    let mut note = current;
    note.updated_at = now;
    if let Some(title) = request.title {
        note.title = title;
    }
    if let Some(content) = request.content {
        note.content = content;
    }
    note
}

/// A note as it is returned to clients.
#[derive(Debug, Clone)]
pub struct NoteResponse {
    pub id: i64,
    pub title: String,
    pub content: String,
    pub created_at: FormattedDateTime,
    pub updated_at: FormattedDateTime,
}

/// Shapes a stored note for a response.
pub fn to_response(note: Note) -> (r: NoteResponse)
    ensures
        r.id == note.id,
        r.title@ == note.title@,
        r.content@ == note.content@,
        r.created_at.0 == note.created_at,
        r.updated_at.0 == note.updated_at,
{
    NoteResponse {
        id: note.id,
        title: note.title,
        content: note.content,
        created_at: FormattedDateTime(note.created_at),
        updated_at: FormattedDateTime(note.updated_at),
    }
}

} // verus!
