//! Sorting and paging primitives of list requests.

use vstd::prelude::*;
use vstd::string::*;

use crate::text::{chars_eq, chars_of, join};

verus! {

/// The direction to sort results in.
#[derive(Debug, Clone, Copy, PartialEq, Eq, Structural)]
pub enum SortDirection {
    Ascending,
    Descending,
}

/// The fields that notes can be sorted by.
#[derive(Debug, Clone, Copy, PartialEq, Eq, Structural)]
pub enum SortFieldName {
    Id,
    Title,
    Content,
    CreatedAt,
    UpdatedAt,
}

/// Every sort field, in declaration order.
pub open spec fn all_fields() -> Seq<SortFieldName> {
    seq![
        SortFieldName::Id,
        SortFieldName::Title,
        SortFieldName::Content,
        SortFieldName::CreatedAt,
        SortFieldName::UpdatedAt,
    ]
}

/// The names of the given fields, in order.
pub open spec fn names_of(fields: Seq<SortFieldName>) -> Seq<Seq<char>> {
    fields.map_values(|f: SortFieldName| f.spec_name())
}

/// The comma-separated list of every field name.
pub open spec fn all_names_text() -> Seq<char> {
    join(names_of(all_fields()), ", "@)
}

/// The field whose name is `s`; names are case-sensitive.
pub open spec fn field_named(s: Seq<char>) -> Option<SortFieldName> {
    if s == "id"@ {
        Some(SortFieldName::Id)
    } else if s == "title"@ {
        Some(SortFieldName::Title)
    } else if s == "content"@ {
        Some(SortFieldName::Content)
    } else if s == "createdAt"@ {
        Some(SortFieldName::CreatedAt)
    } else if s == "updatedAt"@ {
        Some(SortFieldName::UpdatedAt)
    } else {
        None
    }
}

/// The message for a sort field name that is not known.
pub open spec fn unknown_field_message(name: Seq<char>) -> Seq<char> {
    "Unknown sort field: '"@ + name + "'. Valid fields: "@ + all_names_text()
}

impl SortFieldName {
    /// The name of the field as requests spell it.
    pub open spec fn spec_name(self) -> Seq<char> {
        match self {
            SortFieldName::Id => "id"@,
            SortFieldName::Title => "title"@,
            SortFieldName::Content => "content"@,
            SortFieldName::CreatedAt => "createdAt"@,
            SortFieldName::UpdatedAt => "updatedAt"@,
        }
    }

    /// Every sort field, in declaration order.
    pub fn all() -> (r: Vec<SortFieldName>)
        ensures
            r@ == all_fields(),
    {
        let r = vec![
            SortFieldName::Id,
            SortFieldName::Title,
            SortFieldName::Content,
            SortFieldName::CreatedAt,
            SortFieldName::UpdatedAt,
        ];
        assert(r@ =~= all_fields());
        r
    }

    /// The name of the field as requests spell it.
    pub fn to_string(&self) -> (r: String)
        ensures
            r@ == self.spec_name(),
    {
        match self {
            SortFieldName::Id => String::from_str("id"),
            SortFieldName::Title => String::from_str("title"),
            SortFieldName::Content => String::from_str("content"),
            SortFieldName::CreatedAt => String::from_str("createdAt"),
            SortFieldName::UpdatedAt => String::from_str("updatedAt"),
        }
    }

    /// The comma-separated list of every field name
    /// (`id, title, content, createdAt, updatedAt`).
    pub fn all_names() -> (r: String)
        ensures
            r@ == all_names_text(),
    {
        let fields = SortFieldName::all();
        let mut out = String::new();
        let mut i: usize = 0;
        while i < fields.len()
            invariant
                fields@ == all_fields(),
                i <= fields.len(),
                out@ == join(names_of(all_fields().take(i as int)), ", "@),
            decreases fields.len() - i,
        {
            let name = fields[i].to_string();
            proof {
                let p = names_of(all_fields().take(i + 1));
                assert(p.drop_last() =~= names_of(all_fields().take(i as int)));
                assert(p.last() == fields@[i as int].spec_name());
                if i == 0 {
                    assert(names_of(all_fields().take(0)) =~= Seq::<Seq<char>>::empty());
                }
            }
            if i > 0 {
                out.append(", ");
            }
            out.append(name.as_str());
            i = i + 1;
        }
        assert(all_fields().take(5) =~= all_fields());
        out
    }

    /// The field a chars sequence names, if any.
    pub fn from_chars(s: &Vec<char>) -> (r: Option<SortFieldName>)
        ensures
            r == field_named(s@),
    {
        if chars_eq(s, &chars_of("id")) {
            Some(SortFieldName::Id)
        } else if chars_eq(s, &chars_of("title")) {
            Some(SortFieldName::Title)
        } else if chars_eq(s, &chars_of("content")) {
            Some(SortFieldName::Content)
        } else if chars_eq(s, &chars_of("createdAt")) {
            Some(SortFieldName::CreatedAt)
        } else if chars_eq(s, &chars_of("updatedAt")) {
            Some(SortFieldName::UpdatedAt)
        } else {
            None
        }
    }

    /// Parses a field name; an unknown one gives a message that names it
    /// and lists the valid fields.
    pub fn from_str(s: &str) -> (r: Result<SortFieldName, String>)
        ensures
            field_named(s@) matches Some(f) ==> r == Ok::<SortFieldName, String>(f),
            field_named(s@) is None ==> (r matches Err(m) && m@ == unknown_field_message(s@)),
    {
        match SortFieldName::from_chars(&chars_of(s)) {
            Some(f) => Ok(f),
            None => Err(unknown_field_message_text(s)),
        }
    }
}

/// The message for a sort field name that is not known.
pub fn unknown_field_message_text(name: &str) -> (r: String)
    ensures
        r@ == unknown_field_message(name@),
{
    let mut m = String::from_str("Unknown sort field: '");
    m.append(name);
    m.append("'. Valid fields: ");
    let names = SortFieldName::all_names();
    m.append(names.as_str());
    m
}

/// A single sort criterion: a field and a direction.
#[derive(Debug, Clone, Copy, PartialEq, Eq, Structural)]
pub struct SortField {
    pub name: SortFieldName,
    pub direction: SortDirection,
}

/// Metadata describing one accepted query parameter.
pub struct QueryParamInfo {
    /// The query string key as it appears in the URL.
    pub name: &'static str,
    /// A short description of the accepted value type.
    pub kind: &'static str,
}

/// Query parameters of a paginated, filtered and sorted list request.
///
/// The raw fields come from the query string; `parsed_page`, `parsed_size`
/// and `sort_fields` are filled in by validation.
#[derive(Debug, Clone)]
pub struct SearchParams {
    /// A title substring to filter by.
    pub title: Option<String>,
    /// A content substring to filter by.
    pub content: Option<String>,
    /// The one-based page number, as given.
    pub page: Option<String>,
    /// The number of items per page, as given.
    pub size: Option<String>,
    /// Comma-separated sort fields, each with an optional `+` (ascending,
    /// the default) or `-` (descending) prefix, e.g. `title,-createdAt`.
    pub order_by: Option<String>,
    /// The validated page number.
    pub parsed_page: u64,
    /// The validated page size.
    pub parsed_size: u64,
    /// The validated sort fields, in the order given.
    pub sort_fields: Vec<SortField>,
}

impl Default for SearchParams {
    fn default() -> (r: SearchParams)
        ensures
            r.title is None,
            r.content is None,
            r.page is None,
            r.size is None,
            r.order_by is None,
            r.parsed_page == 0,
            r.parsed_size == 0,
            r.sort_fields@.len() == 0,
    {
        SearchParams {
            title: None,
            content: None,
            page: None,
            size: None,
            order_by: None,
            parsed_page: 0,
            parsed_size: 0,
            sort_fields: Vec::new(),
        }
    }
}

/// The query parameters other than `orderBy`, as (key, kind) pairs.
pub open spec fn query_params_spec() -> Seq<(Seq<char>, Seq<char>)> {
    seq![
        ("title"@, "string"@),
        ("content"@, "string"@),
        ("page"@, "positive integer"@),
        ("size"@, "positive integer"@),
    ]
}

/// How one parameter is described in the hint: `key (kind)`.
pub open spec fn param_text(p: (Seq<char>, Seq<char>)) -> Seq<char> {
    p.0 + " ("@ + p.1 + ")"@
}

/// The description of every accepted query parameter, `orderBy` last.
pub open spec fn hint_parts() -> Seq<Seq<char>> {
    query_params_spec().map_values(|p: (Seq<char>, Seq<char>)| param_text(p)).push(
        "orderBy (comma-separated fields: "@ + all_names_text() + ")"@,
    )
}

/// The hint that lists every accepted query parameter.
pub open spec fn params_hint_text() -> Seq<char> {
    "Valid parameters: "@ + join(hint_parts(), ", "@)
}

impl SearchParams {
    /// Every supported query parameter except `orderBy`, whose description
    /// embeds the valid sort fields.
    pub fn query_params() -> (r: Vec<QueryParamInfo>)
        ensures
            r.len() == query_params_spec().len(),
            forall|i: int|
                0 <= i < r.len() ==> (#[trigger] r[i]).name@ == query_params_spec()[i].0
                    && r[i].kind@ == query_params_spec()[i].1,
    {
        vec![
            QueryParamInfo { name: "title", kind: "string" },
            QueryParamInfo { name: "content", kind: "string" },
            QueryParamInfo { name: "page", kind: "positive integer" },
            QueryParamInfo { name: "size", kind: "positive integer" },
        ]
    }

    /// A description of every accepted query parameter, including the valid
    /// sort field names for `orderBy`.
    pub fn params_hint() -> (r: String)
        ensures
            r@ == params_hint_text(),
    {
        let params = SearchParams::query_params();
        let mut out = String::new();
        let mut i: usize = 0;
        let ghost parts = hint_parts();
        while i < params.len()
            invariant
                parts == hint_parts(),
                params.len() == query_params_spec().len(),
                forall|k: int|
                    0 <= k < params.len() ==> (#[trigger] params[k]).name@ == query_params_spec()[k].0
                        && params[k].kind@ == query_params_spec()[k].1,
                i <= params.len(),
                out@ == join(parts.take(i as int), ", "@),
            decreases params.len() - i,
        {
            proof {
                assert(parts.take(i + 1).drop_last() =~= parts.take(i as int));
                if i == 0 {
                    assert(parts.take(0) =~= Seq::<Seq<char>>::empty());
                }
            }
            if i > 0 {
                out.append(", ");
            }
            out.append(params[i].name);
            out.append(" (");
            out.append(params[i].kind);
            out.append(")");
            i = i + 1;
        }
        proof {
            assert(parts.take(5).drop_last() =~= parts.take(4));
        }
        out.append(", ");
        out.append("orderBy (comma-separated fields: ");
        let names = SortFieldName::all_names();
        out.append(names.as_str());
        out.append(")");
        assert(parts.take(5) =~= parts);
        let mut hint = String::from_str("Valid parameters: ");
        hint.append(out.as_str());
        hint
    }
}

/// The number of pages that `total` items fill, `size` to a page.
pub open spec fn ceil_div(total: int, size: int) -> int {
    (total + size - 1) / size
}

/// Paging metadata of a list response.
#[derive(Debug, Clone, Copy, PartialEq, Eq, Structural)]
pub struct PageInfo {
    /// The maximum number of items per page.
    pub size: u64,
    /// The one-based page number returned, or 0 when there are no pages.
    pub number: u64,
    /// The number of matching items across all pages.
    pub total_elements: u64,
    /// The number of pages.
    pub total_pages: u64,
}

/// The paging metadata for page `page` of `total` items, `size` to a page.
pub open spec fn page_info(page: u64, size: u64, total: u64) -> PageInfo {
    let pages = ceil_div(total as int, size as int) as u64;
    PageInfo {
        size,
        number: if pages == 0 { 0 } else { page },
        total_elements: total,
        total_pages: pages,
    }
}

/// The paging metadata for page `page` of `total` items, `size` to a page.
/// An empty result reports page number 0, whatever page was asked for.
pub fn build_page_info(page: u64, size: u64, total: u64) -> (r: PageInfo)
    requires
        size >= 1,
    ensures
        r == page_info(page, size, total),
{
    let q = total / size;
    let rem = total % size;
    proof {
        lemma_ceil_div(total as int, size as int, q as int, rem as int);
    }
    let pages = if rem == 0 { q } else { q + 1 };
    PageInfo {
        size,
        number: if pages == 0 { 0 } else { page },
        total_elements: total,
        total_pages: pages,
    }
}

proof fn lemma_ceil_div(total: int, size: int, q: int, rem: int)
    requires
        size >= 1,
        total >= 0,
        q == total / size,
        rem == total % size,
    ensures
        ceil_div(total, size) == if rem == 0 { q } else { q + 1 },
        q * size <= total,
        rem != 0 ==> q < total,
{
    vstd::arithmetic::div_mod::lemma_fundamental_div_mod(total, size);
    assert(0 <= rem < size) by {
        vstd::arithmetic::div_mod::lemma_mod_bound(total, size);
    }
    let c = if rem == 0 { q } else { q + 1 };
    assert(total + size - 1 == c * size + (if rem == 0 { size - 1 } else { rem - 1 })) by (nonlinear_arith)
        requires
            total == size * q + rem,
            c == if rem == 0 { q } else { q + 1 },
    ;
    vstd::arithmetic::div_mod::lemma_fundamental_div_mod_converse(
        total + size - 1,
        size,
        c,
        if rem == 0 { size - 1 } else { rem - 1 },
    );
    vstd::arithmetic::div_mod::lemma_div_pos_is_pos(total, size);
    assert(q * size <= total && (rem != 0 ==> q < total)) by (nonlinear_arith)
        requires
            q >= 0,
            total == size * q + rem,
            0 <= rem < size,
            size >= 1,
    ;
}

/// Paging law: for a page size of 1 to 100, the page count is the least
/// number of pages that hold every item, and the page number is 0 exactly
/// when there are no pages.
pub proof fn lemma_page_info_counts(page: u64, size: u64, total: u64)
    requires
        1 <= size <= 100,
        page >= 1,
    ensures
        page_info(page, size, total).total_pages * size >= total,
        page_info(page, size, total).total_pages == 0
            || (page_info(page, size, total).total_pages - 1) * size < total,
        (page_info(page, size, total).number == 0) <==> (page_info(page, size, total).total_pages == 0),
        (page_info(page, size, total).total_pages == 0) <==> (total == 0),
{
    let q: int = total as int / size as int;
    let rem: int = total as int % size as int;
    lemma_ceil_div(total as int, size as int, q, rem);
    vstd::arithmetic::div_mod::lemma_fundamental_div_mod(total as int, size as int);
    vstd::arithmetic::div_mod::lemma_mod_bound(total as int, size as int);
    let c = ceil_div(total as int, size as int);
    assert(c * size >= total && (c == 0 || (c - 1) * size < total)) by (nonlinear_arith)
        requires
            total == size * q + rem,
            0 <= rem < size,
            c == if rem == 0 { q } else { q + 1 },
            q >= 0,
    ;
    assert(0 <= c <= u64::MAX) by (nonlinear_arith)
        requires
            c * size >= total,
            c == 0 || (c - 1) * size < total,
            size >= 1,
            total <= u64::MAX,
    ;
    assert((c == 0) <==> (total == 0)) by (nonlinear_arith)
        requires
            c * size >= total,
            c == 0 || (c - 1) * size < total,
            size >= 1,
            total >= 0,
            c >= 0,
    ;
}

} // verus!
