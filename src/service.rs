//! Note operations: validation, then the store, then the response shape.

use vstd::prelude::*;
use vstd::string::*;

use crate::error::{note_entity, ErrorView, ServiceError};
use crate::note::{
    merged, opt_view, to_response, CreateNoteRequest, Note, NoteResponse, NoteView, UpdateNoteRequest,
};
use crate::pagination::{build_page_info, page_info, PageInfo, SearchParams};
use crate::plan::{build_note_query, effective_order, filtered, page_offset, sort_notes};
use crate::store::{delete_result, has_id, note_with_id, window, with_note, without_id, NoteStore};
use crate::validation::{create_rule, update_rule};

verus! {

/// Relies on chrono's `Utc::now`, read as microseconds since the Unix
/// epoch. The clock may stand still or go back, so nothing is promised.
#[verifier::external_body]
fn current_micros() -> i64 {
    chrono::Utc::now().timestamp_micros()
}

/// A page of items with its paging metadata.
#[derive(Debug, Clone)]
pub struct PaginatedResponse<T> {
    pub notes: Vec<T>,
    pub page: PageInfo,
}

/// The response shape of a stored note.
pub open spec fn shows(r: NoteResponse, n: NoteView) -> bool {
    &&& r.id == n.id
    &&& r.title@ == n.title
    &&& r.content@ == n.content
    &&& r.created_at.0 == n.created_at
    &&& r.updated_at.0 == n.updated_at
}

/// Each response shows the note at the same position.
pub open spec fn shows_all(r: Seq<NoteResponse>, s: Seq<NoteView>) -> bool {
    &&& r.len() == s.len()
    &&& forall|i: int| 0 <= i < r.len() ==> shows(#[trigger] r[i], s[i])
}

/// The message of the error a page size of zero ends in.
pub open spec fn zero_size_message() -> Seq<char> {
    "Page size must be positive to page results"@
}

/// Note operations over an in-memory store.
pub struct NoteServiceImpl {
    repository: NoteStore,
}

impl View for NoteServiceImpl {
    type V = Seq<NoteView>;

    closed spec fn view(&self) -> Seq<NoteView> {
        self.repository@
    }
}

impl NoteServiceImpl {
    /// The store is well formed.
    pub closed spec fn wf(&self) -> bool {
        self.repository.wf()
    }

    /// The id the next created note gets.
    pub closed spec fn spec_next_id(&self) -> i64 {
        self.repository.spec_next_id()
    }

    /// A service over the given store.
    pub fn new(repository: NoteStore) -> (r: NoteServiceImpl)
        requires
            repository.wf(),
        ensures
            r.wf(),
            r@ == repository@,
            r.spec_next_id() == repository.spec_next_id(),
    {
        NoteServiceImpl { repository }
    }

    /// Validates the request and stores a new note created at `now`.
    pub fn create_at(&mut self, request: CreateNoteRequest, now: i64) -> (r: Result<NoteResponse, ServiceError>)
        requires
            old(self).wf(),
        ensures
            final(self).wf(),
            create_rule(request.title@, request.content@) matches Err(e) ==> (r matches Err(x) && x@ == e)
                && final(self)@ == old(self)@,
            create_rule(request.title@, request.content@) is Ok && old(self).spec_next_id() < i64::MAX ==> (
            r is Ok),
            r matches Ok(resp) ==> {
                let n = NoteView {
                    id: old(self).spec_next_id(),
                    title: request.title@,
                    content: request.content@,
                    created_at: now,
                    updated_at: now,
                };
                &&& create_rule(request.title@, request.content@) is Ok
                &&& !has_id(old(self)@, n.id)
                &&& shows(resp, n)
                &&& final(self)@ == old(self)@.push(n)
            },
            r matches Err(ServiceError::Internal(_)) ==> final(self)@ == old(self)@,
    {
        match request.validate() {
            Err(e) => {
                return Err(e);
            },
            Ok(()) => {},
        }
        match self.repository.insert(request.title, request.content, now) {
            Ok(note) => Ok(to_response(note)),
            Err(e) => Err(ServiceError::from_note_error(e)),
        }
    }

    /// Validates the request and stores a new note created now.
    pub fn create(&mut self, request: CreateNoteRequest) -> (r: Result<NoteResponse, ServiceError>)
        requires
            old(self).wf(),
        ensures
            final(self).wf(),
            create_rule(request.title@, request.content@) matches Err(e) ==> (r matches Err(x) && x@ == e)
                && final(self)@ == old(self)@,
            create_rule(request.title@, request.content@) is Ok && old(self).spec_next_id() < i64::MAX ==> (
            r is Ok),
            r matches Ok(resp) ==> {
                &&& resp.id == old(self).spec_next_id()
                &&& resp.title@ == request.title@
                &&& resp.content@ == request.content@
                &&& resp.created_at == resp.updated_at
                &&& final(self)@ == old(self)@.push(
                    NoteView {
                        id: resp.id,
                        title: request.title@,
                        content: request.content@,
                        created_at: resp.created_at.0,
                        updated_at: resp.updated_at.0,
                    },
                )
            },
    {
        let now = current_micros();
        self.create_at(request, now)
    }

    /// The note with this id.
    pub fn find_by_id(&self, id: i64) -> (r: Result<NoteResponse, ServiceError>)
        requires
            self.wf(),
        ensures
            has_id(self@, id) ==> (r matches Ok(resp) && shows(resp, note_with_id(self@, id))),
            !has_id(self@, id) ==> (r matches Err(e) && e@ == ErrorView::NotFound(note_entity(), id)),
    {
        match self.repository.find_by_id(id) {
            Ok(note) => Ok(to_response(note)),
            Err(e) => Err(ServiceError::from_note_error(e)),
        }
    }

    /// Validates the search parameters, then returns the requested page of
    /// matching notes, sorted, with the count of all matching notes.
    pub fn find_all(&self, params: SearchParams) -> (r: Result<PaginatedResponse<NoteResponse>, ServiceError>)
        requires
            self.wf(),
        ensures
            match params.spec_validated() {
                Err(e) => r matches Err(x) && x@ == e,
                Ok((page, size, fields)) => if size == 0 {
                    r matches Err(x) && x@ == ErrorView::Internal(zero_size_message())
                } else {
                    r matches Ok(resp) && {
                        let matching = filtered(self@, opt_view(params.title), opt_view(params.content));
                        &&& resp.page == page_info(page, size, matching.len() as u64)
                        &&& shows_all(
                            resp.notes@,
                            window(sort_notes(matching, effective_order(fields)), page_offset(page, size), size),
                        )
                    }
                },
            },
    {
        let mut params = params;
        match params.validate() {
            Err(e) => {
                return Err(e);
            },
            Ok(()) => {},
        }
        if params.parsed_size == 0 {
            return Err(ServiceError::Internal(String::from_str("Page size must be positive to page results")));
        }
        proof {
            if params.page is Some {
                assert(params.parsed_page >= 1);
            }
        }
        let plan = build_note_query(&params);
        let total = self.repository.count_matching(&plan.title_filter, &plan.content_filter);
        let rows = self.repository.execute(&plan);
        let ghost all = rows@.map_values(|m: Note| m@);
        let mut notes: Vec<NoteResponse> = Vec::new();
        let n = rows.len();
        let mut i: usize = 0;
        while i < n
            invariant
                all == rows@.map_values(|m: Note| m@),
                n == rows.len(),
                i <= n,
                notes@.len() == i,
                forall|k: int| 0 <= k < i ==> shows(#[trigger] notes@[k], all[k]),
            decreases n - i,
        {
            assert(all[i as int] == rows@[i as int]@);
            notes.push(to_response(rows[i].duplicate()));
            i = i + 1;
        }
        let page = build_page_info(params.parsed_page, params.parsed_size, total);
        Ok(PaginatedResponse { notes, page })
    }

    /// Validates the request, then applies it at time `now` to the note with
    /// this id in one step; without such a note nothing is written.
    pub fn update_at(&mut self, id: i64, request: UpdateNoteRequest, now: i64) -> (r: Result<NoteResponse, ServiceError>)
        requires
            old(self).wf(),
        ensures
            final(self).wf(),
            final(self).spec_next_id() == old(self).spec_next_id(),
            update_rule(opt_view(request.title), opt_view(request.content)) matches Err(e) ==> (r matches Err(x)
                && x@ == e) && final(self)@ == old(self)@,
            update_rule(opt_view(request.title), opt_view(request.content)) is Ok ==> {
                &&& has_id(old(self)@, id) ==> {
                    let n = merged(note_with_id(old(self)@, id), opt_view(request.title), opt_view(request.content), now);
                    &&& r matches Ok(resp) && shows(resp, n)
                    &&& final(self)@ == with_note(old(self)@, id, n)
                }
                &&& !has_id(old(self)@, id) ==> {
                    &&& r matches Err(x) && x@ == ErrorView::NotFound(note_entity(), id)
                    &&& final(self)@ == old(self)@
                }
            },
    {
        match request.validate() {
            Err(e) => {
                return Err(e);
            },
            Ok(()) => {},
        }
        match self.repository.update(id, request, now) {
            Ok(note) => Ok(to_response(note)),
            Err(e) => Err(ServiceError::from_note_error(e)),
        }
    }

    /// Validates the request, then applies it now to the note with this id.
    pub fn update(&mut self, id: i64, request: UpdateNoteRequest) -> (r: Result<NoteResponse, ServiceError>)
        requires
            old(self).wf(),
        ensures
            final(self).wf(),
            update_rule(opt_view(request.title), opt_view(request.content)) matches Err(e) ==> (r matches Err(x)
                && x@ == e) && final(self)@ == old(self)@,
            update_rule(opt_view(request.title), opt_view(request.content)) is Ok ==> {
                &&& has_id(old(self)@, id) ==> (r matches Ok(resp) && {
                    let n = merged(
                        note_with_id(old(self)@, id),
                        opt_view(request.title),
                        opt_view(request.content),
                        resp.updated_at.0,
                    );
                    &&& shows(resp, n)
                    &&& final(self)@ == with_note(old(self)@, id, n)
                })
                &&& !has_id(old(self)@, id) ==> {
                    &&& r matches Err(x) && x@ == ErrorView::NotFound(note_entity(), id)
                    &&& final(self)@ == old(self)@
                }
            },
    {
        let now = current_micros();
        self.update_at(id, request, now)
    }

    /// Deletes the note with this id; `NotFound` when there is none.
    pub fn delete(&mut self, id: i64) -> (r: Result<(), ServiceError>)
        requires
            old(self).wf(),
        ensures
            final(self).wf(),
            final(self).spec_next_id() == old(self).spec_next_id(),
            final(self)@ == without_id(old(self)@, id),
            has_id(old(self)@, id) ==> r is Ok,
            !has_id(old(self)@, id) ==> (r matches Err(x) && x@ == ErrorView::NotFound(note_entity(), id)),
    {
        let rows = self.repository.delete_by_id(id);
        match delete_result(id, rows) {
            Ok(()) => Ok(()),
            Err(e) => Err(ServiceError::from_note_error(e)),
        }
    }
}


/// Creating a note and then looking it up by its id gives back the title
/// and content it was created with, and its creation and update times are
/// equal.
pub proof fn lemma_create_then_find(s: Seq<NoteView>, id: i64, title: Seq<char>, content: Seq<char>, now: i64)
    requires
        !has_id(s, id),
    ensures
        ({
            let after = s.push(NoteView { id, title, content, created_at: now, updated_at: now });
            &&& has_id(after, id)
            &&& note_with_id(after, id).title == title
            &&& note_with_id(after, id).content == content
            &&& note_with_id(after, id).created_at == note_with_id(after, id).updated_at
        }),
{
    let n = NoteView { id, title, content, created_at: now, updated_at: now };
    let after = s.push(n);
    assert(after[s.len() as int] == n);
    assert(has_id(after, id));
    let c = choose|i: int| 0 <= i < after.len() && (#[trigger] after[i]).id == id;
    if c < s.len() {
        assert(s[c] == after[c]);
        assert(has_id(s, id));
    }
}

/// An update that carries neither title nor content passes validation,
/// keeps the title and content, and moves the update time forward to a
/// later clock reading.
pub proof fn lemma_empty_update_touches_time(s: Seq<NoteView>, id: i64, now: i64)
    requires
        has_id(s, id),
        now > note_with_id(s, id).updated_at,
    ensures
        update_rule(None, None) is Ok,
        ({
            let before = note_with_id(s, id);
            let after = with_note(s, id, merged(before, None, None, now));
            &&& has_id(after, id)
            &&& note_with_id(after, id).title == before.title
            &&& note_with_id(after, id).content == before.content
            &&& note_with_id(after, id).updated_at > before.updated_at
        }),
{
    let before = note_with_id(s, id);
    let n = merged(before, None, None, now);
    let after = with_note(s, id, n);
    let i = choose|i: int| 0 <= i < s.len() && (#[trigger] s[i]).id == id;
    assert(after[i] == n);
    assert(has_id(after, id));
    let c = choose|j: int| 0 <= j < after.len() && (#[trigger] after[j]).id == id;
    assert(after[c] == (if s[c].id == id { n } else { s[c] }));
}

/// Once a note is deleted, no note with its id is left to find.
pub proof fn lemma_delete_then_find(s: Seq<NoteView>, id: i64)
    ensures
        !has_id(without_id(s, id), id),
{
    let r = without_id(s, id);
    assert forall|i: int| 0 <= i < r.len() implies (#[trigger] r[i]).id != id by {
        s.lemma_filter_pred(|n: NoteView| n.id != id, i);
    }
}

} // verus!
