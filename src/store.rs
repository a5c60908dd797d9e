//! An in-memory note store: ids are assigned in increasing order and notes
//! are kept in the order of their ids.

use vstd::prelude::*;
use vstd::string::*;

use crate::error::NoteRepositoryError;
use crate::note::{apply_update_fields, merged, opt_view, Note, NoteView, UpdateNoteRequest};
use crate::plan::{filtered, note_passes, passes, sort_notes, sort_notes_exec, QueryPlan};

verus! {

/// Notes held in memory, in increasing order of id.
pub struct NoteStore {
    notes: Vec<Note>,
    next_id: i64,
}

/// Some note of `s` has this id.
pub open spec fn has_id(s: Seq<NoteView>, id: i64) -> bool {
    exists|i: int| 0 <= i < s.len() && (#[trigger] s[i]).id == id
}

/// The note of `s` with this id, where there is one.
pub open spec fn note_with_id(s: Seq<NoteView>, id: i64) -> NoteView {
    s[choose|i: int| 0 <= i < s.len() && (#[trigger] s[i]).id == id]
}

/// `s` with the note of this id removed.
pub open spec fn without_id(s: Seq<NoteView>, id: i64) -> Seq<NoteView> {
    s.filter(|n: NoteView| n.id != id)
}

/// `s` with the note of this id replaced by `n`.
pub open spec fn with_note(s: Seq<NoteView>, id: i64, n: NoteView) -> Seq<NoteView> {
    s.map_values(|m: NoteView| if m.id == id { n } else { m })
}

/// The page window of `s`: up to `limit` notes, from position `offset` on.
pub open spec fn window(s: Seq<NoteView>, offset: u64, limit: u64) -> Seq<NoteView> {
    if offset >= s.len() {
        Seq::empty()
    } else if offset + limit > s.len() {
        s.subrange(offset as int, s.len() as int)
    } else {
        s.subrange(offset as int, offset + limit)
    }
}

/// The notes of `s` that a plan selects: those passing its filters, sorted
/// by its criteria, within its page window.
pub open spec fn plan_rows(s: Seq<NoteView>, plan: QueryPlan) -> Seq<NoteView> {
    window(
        sort_notes(filtered(s, opt_view(plan.title_filter), opt_view(plan.content_filter)), plan.order@),
        plan.offset,
        plan.limit,
    )
}

/// The outcome of a delete that removed `rows_affected` rows: none removed
/// means there was no such note.
pub fn delete_result(id: i64, rows_affected: u64) -> (r: Result<(), NoteRepositoryError>)
    ensures
        rows_affected == 0 ==> (r matches Err(NoteRepositoryError::NotFound(i)) && i == id),
        rows_affected != 0 ==> r is Ok,
{
    if rows_affected == 0 {
        return Err(NoteRepositoryError::NotFound(id));
    }
    Ok(())
}

impl View for NoteStore {
    type V = Seq<NoteView>;

    closed spec fn view(&self) -> Seq<NoteView> {
        self.notes@.map_values(|n: Note| n@)
    }
}

impl NoteStore {
    /// The id the next created note gets.
    pub closed spec fn spec_next_id(&self) -> i64 {
        self.next_id
    }

    /// Ids are positive, below the next id, and strictly increasing.
    pub closed spec fn wf(&self) -> bool {
        &&& self.next_id >= 1
        &&& forall|i: int| 0 <= i < self.notes.len() ==> 1 <= (#[trigger] self.notes[i]).id < self.next_id
        &&& forall|i: int, j: int| 0 <= i < j < self.notes.len() ==> self.notes[i].id < self.notes[j].id
    }

    /// In a well-formed store each id belongs to at most one note.
    pub proof fn lemma_ids_unique(&self)
        requires
            self.wf(),
        ensures
            forall|i: int, j: int|
                0 <= i < self@.len() && 0 <= j < self@.len() && #[trigger] self@[i].id == #[trigger] self@[j].id
                    ==> i == j,
            forall|i: int| 0 <= i < self@.len() ==> (#[trigger] self@[i]).id < self.spec_next_id(),
            self.spec_next_id() >= 1,
    {
        assert forall|i: int, j: int|
            0 <= i < self@.len() && 0 <= j < self@.len() && #[trigger] self@[i].id == #[trigger] self@[j].id
                implies i == j by {
            if i < j {
                assert(self.notes[i].id < self.notes[j].id);
            } else if j < i {
                assert(self.notes[j].id < self.notes[i].id);
            }
        }
        assert forall|i: int| 0 <= i < self@.len() implies (#[trigger] self@[i]).id < self.spec_next_id() by {
            assert(self.notes[i].id < self.next_id);
        }
    }

    /// An empty store.
    pub fn new() -> (r: NoteStore)
        ensures
            r.wf(),
            r@ == Seq::<NoteView>::empty(),
    {
        let r = NoteStore { notes: Vec::new(), next_id: 1 };
        assert(r@ =~= Seq::<NoteView>::empty());
        r
    }

    /// The number of stored notes.
    pub fn len(&self) -> (r: usize)
        ensures
            r == self@.len(),
    {
        self.notes.len()
    }

    /// The stored notes, in order of id.
    pub fn notes(&self) -> (r: &Vec<Note>)
        ensures
            r@.map_values(|n: Note| n@) == self@,
    {
        &self.notes
    }

    /// Where the note with this id stands, if any.
    fn position(&self, id: i64) -> (r: Option<usize>)
        requires
            self.wf(),
        ensures
            r matches Some(i) ==> i < self@.len() && self@[i as int].id == id && note_with_id(self@, id)
                == self@[i as int],
            r is None ==> !has_id(self@, id),
    {
        let mut i: usize = 0;
        while i < self.notes.len()
            invariant
                self.wf(),
                i <= self.notes.len(),
                forall|k: int| 0 <= k < i ==> self.notes[k].id != id,
            decreases self.notes.len() - i,
        {
            if self.notes[i].id == id {
                proof {
                    self.lemma_ids_unique();
                    assert(self@[i as int].id == id);
                    let c = choose|k: int| 0 <= k < self@.len() && (#[trigger] self@[k]).id == id;
                    assert(self@[c].id == self@[i as int].id);
                }
                return Some(i);
            }
            i = i + 1;
        }
        proof {
            assert forall|k: int| 0 <= k < self@.len() implies (#[trigger] self@[k]).id != id by {
                assert(self.notes[k]@ == self@[k]);
            }
        }
        None
    }

    /// Stores a new note with the next id, created and updated at `now`.
    /// Fails only when the id space is used up.
    pub fn insert(&mut self, title: String, content: String, now: i64) -> (r: Result<Note, NoteRepositoryError>)
        requires
            old(self).wf(),
        ensures
            final(self).wf(),
            old(self).spec_next_id() < i64::MAX ==> r is Ok,
            r matches Ok(n) ==> {
                &&& n@ == (NoteView {
                    id: old(self).spec_next_id(),
                    title: title@,
                    content: content@,
                    created_at: now,
                    updated_at: now,
                })
                &&& !has_id(old(self)@, n.id)
                &&& final(self)@ == old(self)@.push(n@)
            },
            r is Err ==> final(self)@ == old(self)@ && r matches Err(NoteRepositoryError::DatabaseError(_)),
    {
        if self.next_id == i64::MAX {
            return Err(NoteRepositoryError::DatabaseError(String::from_str("no note id is left to assign")));
        }
        let note = Note { id: self.next_id, title, content, created_at: now, updated_at: now };
        let copy = note.duplicate();
        proof {
            self.lemma_ids_unique();
        }
        self.notes.push(note);
        self.next_id = self.next_id + 1;
        proof {
            assert(self@ =~= old(self)@.push(copy@));
        }
        Ok(copy)
    }

    /// The note with this id, or `NotFound`.
    pub fn find_by_id(&self, id: i64) -> (r: Result<Note, NoteRepositoryError>)
        requires
            self.wf(),
        ensures
            has_id(self@, id) ==> (r matches Ok(n) && n@ == note_with_id(self@, id)),
            !has_id(self@, id) ==> (r matches Err(NoteRepositoryError::NotFound(i)) && i == id),
    {
        match self.position(id) {
            Some(i) => Ok(self.notes[i].duplicate()),
            None => Err(NoteRepositoryError::NotFound(id)),
        }
    }

    /// Applies a partial update at time `now` to the note with this id, as
    /// one step: read, merge, write. Without such a note nothing is written
    /// and the result is `NotFound`.
    pub fn update(&mut self, id: i64, request: UpdateNoteRequest, now: i64) -> (r: Result<Note, NoteRepositoryError>)
        requires
            old(self).wf(),
        ensures
            final(self).wf(),
            final(self).spec_next_id() == old(self).spec_next_id(),
            has_id(old(self)@, id) ==> {
                let n = merged(note_with_id(old(self)@, id), opt_view(request.title), opt_view(request.content), now);
                &&& r matches Ok(u) && u@ == n
                &&& final(self)@ == with_note(old(self)@, id, n)
            },
            !has_id(old(self)@, id) ==> {
                &&& r matches Err(NoteRepositoryError::NotFound(i)) && i == id
                &&& final(self)@ == old(self)@
            },
    {
        match self.position(id) {
            None => Err(NoteRepositoryError::NotFound(id)),
            Some(i) => {
                let current = self.notes[i].duplicate();
                let updated = apply_update_fields(current, request, now);
                let copy = updated.duplicate();
                proof {
                    self.lemma_ids_unique();
                }
                self.notes.set(i, updated);
                proof {
                    assert forall|k: int| 0 <= k < self@.len() implies #[trigger] self@[k] == (if old(self)@[k].id == id { copy@ } else { old(self)@[k] }) by {
                        if k != i {
                            assert(old(self)@[k].id != old(self)@[i as int].id);
                        }
                    }
                    assert(self@ =~= with_note(old(self)@, id, copy@));
                }
                Ok(copy)
            },
        }
    }

    /// Removes the note with this id; returns how many notes were removed.
    pub fn delete_by_id(&mut self, id: i64) -> (r: u64)
        requires
            old(self).wf(),
        ensures
            final(self).wf(),
            final(self).spec_next_id() == old(self).spec_next_id(),
            final(self)@ == without_id(old(self)@, id),
            r == if has_id(old(self)@, id) { 1u64 } else { 0u64 },
    {
        match self.position(id) {
            None => {
                proof {
                    assert(old(self)@.filter(|n: NoteView| n.id != id) =~= old(self)@) by {
                        assert forall|k: int| 0 <= k < old(self)@.len() implies (#[trigger] old(self)@[k]).id != id by {}
                        lemma_filter_all(old(self)@, |n: NoteView| n.id != id);
                    }
                }
                0
            },
            Some(i) => {
                proof {
                    self.lemma_ids_unique();
                }
                self.notes.remove(i);
                proof {
                    lemma_filter_remove_one(old(self)@, i as int, id);
                    assert(self@ =~= old(self)@.remove(i as int));
                }
                1
            },
        }
    }
}

proof fn lemma_filter_step(s: Seq<NoteView>, i: int, p: spec_fn(NoteView) -> bool)
    requires
        0 <= i < s.len(),
    ensures
        s.take(i + 1).filter(p) == if p(s[i]) {
            s.take(i).filter(p).push(s[i])
        } else {
            s.take(i).filter(p)
        },
{
    reveal(Seq::filter);
    assert(s.take(i + 1).drop_last() =~= s.take(i));
}

impl NoteStore {
    /// The stored notes that pass the filters, in order of id.
    fn matching(&self, title: &Option<String>, content: &Option<String>) -> (r: Vec<Note>)
        ensures
            r@.map_values(|n: Note| n@) == filtered(self@, opt_view(*title), opt_view(*content)),
    {
        let ghost p = |n: NoteView| passes(n, opt_view(*title), opt_view(*content));
        let ghost all = self@;
        let mut r: Vec<Note> = Vec::new();
        let mut i: usize = 0;
        proof {
            reveal(Seq::filter);
            assert(all.take(0) =~= Seq::<NoteView>::empty());
            assert(r@.map_values(|n: Note| n@) =~= all.take(0).filter(p));
        }
        while i < self.notes.len()
            invariant
                all == self@,
                p == (|n: NoteView| passes(n, opt_view(*title), opt_view(*content))),
                i <= self.notes.len(),
                r@.map_values(|n: Note| n@) == all.take(i as int).filter(p),
            decreases self.notes.len() - i,
        {
            proof {
                lemma_filter_step(all, i as int, p);
                assert(all[i as int] == self.notes@[i as int]@);
            }
            if note_passes(&self.notes[i], title, content) {
                let ghost before = r@.map_values(|n: Note| n@);
                let c = self.notes[i].duplicate();
                r.push(c);
                proof {
                    assert(r@.map_values(|n: Note| n@) =~= before.push(all[i as int]));
                }
            }
            i = i + 1;
        }
        proof {
            assert(all.take(self.notes.len() as int) =~= all);
        }
        r
    }

    /// How many stored notes pass the filters.
    pub fn count_matching(&self, title: &Option<String>, content: &Option<String>) -> (r: u64)
        ensures
            r == filtered(self@, opt_view(*title), opt_view(*content)).len(),
    {
        let m = self.matching(title, content);
        m.len() as u64
    }

    /// The notes that a plan selects, in its order.
    pub fn execute(&self, plan: &QueryPlan) -> (r: Vec<Note>)
        ensures
            r@.map_values(|n: Note| n@) == plan_rows(self@, *plan),
    {
        let m = self.matching(&plan.title_filter, &plan.content_filter);
        let sorted = sort_notes_exec(m, &plan.order);
        let ghost sv = sorted@.map_values(|n: Note| n@);
        let n = sorted.len();
        let mut r: Vec<Note> = Vec::new();
        if plan.offset >= n as u64 {
            proof {
                assert(r@.map_values(|n: Note| n@) =~= Seq::<NoteView>::empty());
            }
            return r;
        }
        let start = plan.offset as usize;
        let end = if plan.limit >= (n - start) as u64 {
            n
        } else {
            start + plan.limit as usize
        };
        let mut i: usize = start;
        while i < end
            invariant
                sv == sorted@.map_values(|n: Note| n@),
                start <= i <= end <= n == sorted.len(),
                r@.map_values(|n: Note| n@) == sv.subrange(start as int, i as int),
            decreases end - i,
        {
            let ghost before = r@.map_values(|n: Note| n@);
            let c = sorted[i].duplicate();
            assert(sv[i as int] == sorted@[i as int]@);
            r.push(c);
            proof {
                assert(r@.map_values(|n: Note| n@) =~= before.push(sv[i as int]));
                assert(sv.subrange(start as int, i + 1) =~= sv.subrange(start as int, i as int).push(sv[i as int]));
            }
            i = i + 1;
        }
        r
    }
}

proof fn lemma_filter_all(s: Seq<NoteView>, p: spec_fn(NoteView) -> bool)
    requires
        forall|k: int| 0 <= k < s.len() ==> p(#[trigger] s[k]),
    ensures
        s.filter(p) == s,
    decreases s.len(),
{
    reveal(Seq::filter);
    if s.len() > 0 {
        lemma_filter_all(s.drop_last(), p);
        assert(s.drop_last().push(s.last()) =~= s);
    } else {
        assert(s.filter(p) =~= s);
    }
}

proof fn lemma_filter_remove_one(s: Seq<NoteView>, i: int, id: i64)
    requires
        0 <= i < s.len(),
        s[i].id == id,
        forall|k: int| 0 <= k < s.len() && k != i ==> (#[trigger] s[k]).id != id,
    ensures
        s.filter(|n: NoteView| n.id != id) == s.remove(i),
    decreases s.len(),
{
    reveal(Seq::filter);
    let p = |n: NoteView| n.id != id;
    if i == s.len() - 1 {
        lemma_filter_all(s.drop_last(), p);
        assert(s.remove(i) =~= s.drop_last());
    } else {
        lemma_filter_remove_one(s.drop_last(), i, id);
        assert(s.remove(i) =~= s.drop_last().remove(i).push(s.last()));
    }
}

} // verus!
