//! Storage-agnostic query plans for list requests: substring filters, sort
//! order and page bounds.

use vstd::prelude::*;

use crate::note::{opt_view, Note, NoteView};
use crate::text::{chars_eq, chars_of, sub_chars};
use crate::pagination::{SearchParams, SortDirection, SortField, SortFieldName};

verus! {

/// A list query: filters, sort criteria and the page window.
#[derive(Debug, Clone)]
pub struct QueryPlan {
    /// Only notes whose title contains this text.
    pub title_filter: Option<String>,
    /// Only notes whose content contains this text.
    pub content_filter: Option<String>,
    /// Sort criteria, primary first; never empty.
    pub order: Vec<SortField>,
    /// How many matching notes precede the page.
    pub offset: u64,
    /// The most notes the page holds.
    pub limit: u64,
}

/// The order used when a request gives none: ascending id.
pub open spec fn default_order() -> Seq<SortField> {
    seq![SortField { name: SortFieldName::Id, direction: SortDirection::Ascending }]
}

/// The sort criteria of validated sort fields.
pub open spec fn effective_order(fields: Seq<SortField>) -> Seq<SortField> {
    if fields.len() == 0 {
        default_order()
    } else {
        fields
    }
}

/// The number of notes before page `page` of `size` notes, held at the
/// largest `u64` where it would exceed it.
pub open spec fn page_offset(page: u64, size: u64) -> u64 {
    let o = (page - 1) * size;
    if o > u64::MAX {
        u64::MAX
    } else {
        o as u64
    }
}

/// Builds the plan for validated search parameters: their filters, their
/// sort fields or ascending id, and the window of the requested page.
pub fn build_note_query(params: &SearchParams) -> (r: QueryPlan)
    requires
        params.parsed_page >= 1,
    ensures
        opt_view(r.title_filter) == opt_view(params.title),
        opt_view(r.content_filter) == opt_view(params.content),
        r.order@ == effective_order(params.sort_fields@),
        r.offset == page_offset(params.parsed_page, params.parsed_size),
        r.limit == params.parsed_size,
{
    let order = if params.sort_fields.len() == 0 {
        let v = vec![SortField { name: SortFieldName::Id, direction: SortDirection::Ascending }];
        assert(v@ =~= default_order());
        v
    } else {
        params.sort_fields.clone()
    };
    let offset = match (params.parsed_page - 1).checked_mul(params.parsed_size) {
        Some(o) => o,
        None => u64::MAX,
    };
    QueryPlan {
        title_filter: params.title.clone(),
        content_filter: params.content.clone(),
        order,
        offset,
        limit: params.parsed_size,
    }
}

/// `t` occurs in `s` as a contiguous run.
pub open spec fn contains(s: Seq<char>, t: Seq<char>) -> bool {
    exists|i: int| 0 <= i <= s.len() - t.len() && #[trigger] s.subrange(i, i + t.len()) == t
}

/// A note passes the filters that are present.
pub open spec fn passes(n: NoteView, title: Option<Seq<char>>, content: Option<Seq<char>>) -> bool {
    &&& title matches Some(t) ==> contains(n.title, t)
    &&& content matches Some(c) ==> contains(n.content, c)
}

/// The notes of `s` that pass the filters, in order.
pub open spec fn filtered(s: Seq<NoteView>, title: Option<Seq<char>>, content: Option<Seq<char>>) -> Seq<NoteView> {
    s.filter(|n: NoteView| passes(n, title, content))
}

/// Three-way comparison of integers: -1, 0 or 1.
pub open spec fn cmp_int(a: int, b: int) -> int {
    if a < b {
        -1
    } else if a > b {
        1
    } else {
        0
    }
}

/// Three-way lexicographic comparison of texts by character code, as
/// strings compare.
pub open spec fn cmp_text(a: Seq<char>, b: Seq<char>) -> int
    decreases a.len(),
{
    if a.len() == 0 && b.len() == 0 {
        0
    } else if a.len() == 0 {
        -1
    } else if b.len() == 0 {
        1
    } else if a[0] != b[0] {
        cmp_int(a[0] as int, b[0] as int)
    } else {
        cmp_text(a.drop_first(), b.drop_first())
    }
}

/// Three-way comparison of two notes on one field.
pub open spec fn cmp_field(a: NoteView, b: NoteView, f: SortFieldName) -> int {
    match f {
        SortFieldName::Id => cmp_int(a.id as int, b.id as int),
        SortFieldName::Title => cmp_text(a.title, b.title),
        SortFieldName::Content => cmp_text(a.content, b.content),
        SortFieldName::CreatedAt => cmp_int(a.created_at as int, b.created_at as int),
        SortFieldName::UpdatedAt => cmp_int(a.updated_at as int, b.updated_at as int),
    }
}

/// Three-way comparison of two notes under sort criteria: the first
/// criterion that tells them apart decides, in its direction.
pub open spec fn cmp_notes(a: NoteView, b: NoteView, order: Seq<SortField>) -> int
    decreases order.len(),
{
    if order.len() == 0 {
        0
    } else {
        let c = cmp_field(a, b, order[0].name);
        let c = if order[0].direction == SortDirection::Descending {
            -c
        } else {
            c
        };
        if c != 0 {
            c
        } else {
            cmp_notes(a, b, order.drop_first())
        }
    }
}

/// `s` is in order: no note is followed by one that sorts before it.
pub open spec fn sorted_by(s: Seq<NoteView>, order: Seq<SortField>) -> bool {
    forall|i: int| 0 <= i < s.len() - 1 ==> cmp_notes(#[trigger] s[i], s[i + 1], order) <= 0
}

proof fn lemma_cmp_text_antisymmetric(a: Seq<char>, b: Seq<char>)
    ensures
        cmp_text(a, b) == -cmp_text(b, a),
    decreases a.len(),
{
    if a.len() > 0 && b.len() > 0 && a[0] == b[0] {
        lemma_cmp_text_antisymmetric(a.drop_first(), b.drop_first());
    }
}

/// Swapping the notes negates their comparison.
pub proof fn lemma_cmp_notes_antisymmetric(a: NoteView, b: NoteView, order: Seq<SortField>)
    ensures
        cmp_notes(a, b, order) == -cmp_notes(b, a, order),
    decreases order.len(),
{
    if order.len() > 0 {
        lemma_cmp_text_antisymmetric(a.title, b.title);
        lemma_cmp_text_antisymmetric(a.content, b.content);
        lemma_cmp_notes_antisymmetric(a, b, order.drop_first());
    }
}


/// Whether `t` occurs in `s`.
pub fn contains_chars(s: &Vec<char>, t: &Vec<char>) -> (r: bool)
    ensures
        r == contains(s@, t@),
{
    if t.len() > s.len() {
        return false;
    }
    let last = s.len() - t.len();
    let mut i: usize = 0;
    while i <= last
        invariant
            last == s.len() - t.len(),
            t.len() <= s.len(),
            forall|j: int| 0 <= j < i ==> #[trigger] s@.subrange(j, j + t@.len()) != t@,
        decreases last + 1 - i,
    {
        let piece = sub_chars(s, i, i + t.len());
        if chars_eq(&piece, t) {
            return true;
        }
        if i == last {
            return false;
        }
        i = i + 1;
    }
    false
}

/// Whether a note passes the filters that are present.
pub fn note_passes(n: &Note, title: &Option<String>, content: &Option<String>) -> (r: bool)
    ensures
        r == passes(n@, opt_view(*title), opt_view(*content)),
{
    if let Some(t) = title {
        if !contains_chars(&chars_of(n.title.as_str()), &chars_of(t.as_str())) {
            return false;
        }
    }
    if let Some(c) = content {
        if !contains_chars(&chars_of(n.content.as_str()), &chars_of(c.as_str())) {
            return false;
        }
    }
    true
}

fn compare_int(a: i64, b: i64) -> (r: i8)
    ensures
        r == cmp_int(a as int, b as int),
{
    if a < b {
        -1
    } else if a > b {
        1
    } else {
        0
    }
}

/// Compares two texts by character code.
pub fn compare_text(a: &Vec<char>, b: &Vec<char>) -> (r: i8)
    ensures
        r == cmp_text(a@, b@),
        -1 <= r <= 1,
{
    let mut i: usize = 0;
    assert(a@.skip(0) =~= a@);
    assert(b@.skip(0) =~= b@);
    while i < a.len() && i < b.len() && a[i] == b[i]
        invariant
            i <= a.len(),
            i <= b.len(),
            cmp_text(a@, b@) == cmp_text(a@.skip(i as int), b@.skip(i as int)),
        decreases a.len() - i,
    {
        proof {
            assert(a@.skip(i as int).drop_first() =~= a@.skip(i + 1));
            assert(b@.skip(i as int).drop_first() =~= b@.skip(i + 1));
        }
        i = i + 1;
    }
    if i == a.len() && i == b.len() {
        0
    } else if i == a.len() {
        -1
    } else if i == b.len() {
        1
    } else {
        proof {
            assert(a@.skip(i as int)[0] == a@[i as int]);
            assert(b@.skip(i as int)[0] == b@[i as int]);
        }
        if a[i] < b[i] {
            -1
        } else {
            1
        }
    }
}

fn compare_field(a: &Note, b: &Note, f: SortFieldName) -> (r: i8)
    ensures
        r == cmp_field(a@, b@, f),
        -1 <= r <= 1,
{
    match f {
        SortFieldName::Id => compare_int(a.id, b.id),
        SortFieldName::Title => compare_text(&chars_of(a.title.as_str()), &chars_of(b.title.as_str())),
        SortFieldName::Content => compare_text(&chars_of(a.content.as_str()), &chars_of(b.content.as_str())),
        SortFieldName::CreatedAt => compare_int(a.created_at, b.created_at),
        SortFieldName::UpdatedAt => compare_int(a.updated_at, b.updated_at),
    }
}

/// Compares two notes under sort criteria.
pub fn compare_notes(a: &Note, b: &Note, order: &Vec<SortField>) -> (r: i8)
    ensures
        r == cmp_notes(a@, b@, order@),
{
    let mut k: usize = 0;
    assert(order@.skip(0) =~= order@);
    while k < order.len()
        invariant
            k <= order.len(),
            cmp_notes(a@, b@, order@) == cmp_notes(a@, b@, order@.skip(k as int)),
        decreases order.len() - k,
    {
        let ghost rest = order@.skip(k as int);
        assert(rest[0] == order@[k as int]);
        assert(rest.drop_first() =~= order@.skip(k + 1));
        let c = compare_field(a, b, order[k].name);
        let c = if order[k].direction == SortDirection::Descending {
            -c
        } else {
            c
        };
        if c != 0 {
            return c;
        }
        k = k + 1;
    }
    0
}

/// Where `x` goes among the sorted notes `r`: before the first note that
/// sorts after it.
pub open spec fn insert_pos(r: Seq<NoteView>, x: NoteView, order: Seq<SortField>) -> int
    decreases r.len(),
{
    if r.len() == 0 {
        0
    } else if cmp_notes(x, r[0], order) < 0 {
        0
    } else {
        1 + insert_pos(r.drop_first(), x, order)
    }
}

/// The notes of `s` sorted by insertion, one after the other; notes that
/// compare equal keep their order.
pub open spec fn sort_notes(s: Seq<NoteView>, order: Seq<SortField>) -> Seq<NoteView>
    decreases s.len(),
{
    if s.len() == 0 {
        Seq::empty()
    } else {
        let r = sort_notes(s.drop_last(), order);
        r.insert(insert_pos(r, s.last(), order), s.last())
    }
}

proof fn lemma_insert_pos_bounds(r: Seq<NoteView>, x: NoteView, order: Seq<SortField>)
    ensures
        0 <= insert_pos(r, x, order) <= r.len(),
    decreases r.len(),
{
    if r.len() > 0 {
        lemma_insert_pos_bounds(r.drop_first(), x, order);
    }
}

proof fn lemma_insert_pos_order(r: Seq<NoteView>, x: NoteView, order: Seq<SortField>)
    ensures
        forall|k: int| 0 <= k < insert_pos(r, x, order) ==> cmp_notes(x, #[trigger] r[k], order) >= 0,
        insert_pos(r, x, order) < r.len() ==> cmp_notes(x, r[insert_pos(r, x, order)], order) < 0,
    decreases r.len(),
{
    lemma_insert_pos_bounds(r, x, order);
    if r.len() > 0 && cmp_notes(x, r[0], order) >= 0 {
        let t = r.drop_first();
        lemma_insert_pos_order(t, x, order);
        assert forall|k: int| 0 <= k < insert_pos(r, x, order) implies cmp_notes(x, #[trigger] r[k], order) >= 0 by {
            if k > 0 {
                assert(r[k] == t[k - 1]);
            }
        }
        let p = insert_pos(t, x, order);
        lemma_insert_pos_bounds(t, x, order);
        if p < t.len() {
            assert(r[p + 1] == t[p]);
        }
    }
}

/// Sorting by insertion yields the same notes, each as often as before, in
/// order: no note is followed by one that sorts before it.
pub proof fn lemma_sort_notes_sorted(s: Seq<NoteView>, order: Seq<SortField>)
    ensures
        sorted_by(sort_notes(s, order), order),
        sort_notes(s, order).to_multiset() == s.to_multiset(),
    decreases s.len(),
{
    broadcast use vstd::seq_lib::to_multiset_insert, vstd::seq_lib::to_multiset_build;

    if s.len() == 0 {
        assert(s =~= Seq::<NoteView>::empty());
    } else {
        let r = sort_notes(s.drop_last(), order);
        let x = s.last();
        let p = insert_pos(r, x, order);
        lemma_sort_notes_sorted(s.drop_last(), order);
        lemma_insert_pos_bounds(r, x, order);
        lemma_insert_pos_order(r, x, order);
        let q = r.insert(p, x);
        assert forall|i: int| 0 <= i < q.len() - 1 implies cmp_notes(#[trigger] q[i], q[i + 1], order) <= 0 by {
            if i + 1 < p {
                assert(q[i] == r[i] && q[i + 1] == r[i + 1]);
            } else if i + 1 == p {
                assert(q[i] == r[i] && q[i + 1] == x);
                lemma_cmp_notes_antisymmetric(x, r[i], order);
            } else if i == p {
                assert(q[i] == x && q[i + 1] == r[p]);
            } else {
                assert(q[i] == r[i - 1] && q[i + 1] == r[i]);
            }
        }
        assert(s.drop_last().push(x) =~= s);
    }
}

/// Inserts `x` into the sorted vector `r` at its place.
fn insert_sorted(r: &mut Vec<Note>, x: Note, order: &Vec<SortField>)
    ensures
        final(r)@.map_values(|n: Note| n@) == old(r)@.map_values(|n: Note| n@).insert(
            insert_pos(old(r)@.map_values(|n: Note| n@), x@, order@),
            x@,
        ),
{
    let ghost rv = r@.map_values(|n: Note| n@);
    let mut p: usize = 0;
    assert(rv.skip(0) =~= rv);
    while p < r.len() && compare_notes(&x, &r[p], order) >= 0
        invariant
            rv == r@.map_values(|n: Note| n@),
            p <= r.len(),
            insert_pos(rv, x@, order@) == p + insert_pos(rv.skip(p as int), x@, order@),
        decreases r.len() - p,
    {
        proof {
            assert(rv.skip(p as int)[0] == rv[p as int]);
            assert(rv.skip(p as int).drop_first() =~= rv.skip(p + 1));
        }
        p = p + 1;
    }
    proof {
        if p < r.len() {
            assert(rv.skip(p as int)[0] == rv[p as int]);
        }
    }
    let ghost xv = x@;
    r.insert(p, x);
    proof {
        assert(r@.map_values(|n: Note| n@) =~= rv.insert(p as int, xv));
    }
}

/// The notes sorted under the criteria; notes that compare equal keep
/// their order.
pub fn sort_notes_exec(notes: Vec<Note>, order: &Vec<SortField>) -> (r: Vec<Note>)
    ensures
        r@.map_values(|n: Note| n@) == sort_notes(notes@.map_values(|n: Note| n@), order@),
        sorted_by(r@.map_values(|n: Note| n@), order@),
        r@.map_values(|n: Note| n@).to_multiset() == notes@.map_values(|n: Note| n@).to_multiset(),
{
    let ghost nv = notes@.map_values(|n: Note| n@);
    let mut r: Vec<Note> = Vec::new();
    let mut i: usize = 0;
    proof {
        assert(nv.take(0) =~= Seq::<NoteView>::empty());
        assert(r@.map_values(|n: Note| n@) =~= Seq::<NoteView>::empty());
    }
    while i < notes.len()
        invariant
            nv == notes@.map_values(|n: Note| n@),
            i <= notes.len(),
            r@.map_values(|n: Note| n@) == sort_notes(nv.take(i as int), order@),
        decreases notes.len() - i,
    {
        proof {
            assert(nv.take(i + 1).drop_last() =~= nv.take(i as int));
            assert(nv.take(i + 1).last() == notes@[i as int]@);
        }
        insert_sorted(&mut r, notes[i].duplicate(), order);
        i = i + 1;
    }
    proof {
        assert(nv.take(notes.len() as int) =~= nv);
        lemma_sort_notes_sorted(nv, order@);
    }
    r
}

} // verus!
