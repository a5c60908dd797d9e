//! Validation of request parameters and bodies. Every rule checks its input
//! in a fixed order and ends with the first violation it finds.

use vstd::prelude::*;
use vstd::string::*;

use crate::error::{ErrorView, ServiceError};
use crate::note::{opt_view, CreateNoteRequest, UpdateNoteRequest};
use crate::pagination::{
    all_names_text, field_named, unknown_field_message, unknown_field_message_text, SearchParams,
    SortDirection, SortField, SortFieldName,
};
use crate::text::{
    blank, chars_of, is_blank, parse_u64, parse_u64_chars, split_chars, split_on, string_from_chars,
    sub_chars, trim, trim_chars,
};

verus! {

/// The longest title accepted, in characters.
pub const MAX_TITLE_LEN: usize = 255;

/// The page number used when none is given.
pub const DEFAULT_PAGE: u64 = 1;

/// The page size used when none is given.
pub const DEFAULT_SIZE: u64 = 20;

/// The largest page size accepted.
pub const MAX_SIZE: u64 = 100;

/// `Parameter '{name}' must not be blank`.
pub open spec fn blank_message(name: Seq<char>) -> Seq<char> {
    "Parameter '"@ + name + "' must not be blank"@
}

/// `Parameter '{name}' must be a positive integer, got '{value}'`.
pub open spec fn not_integer_message(name: Seq<char>, value: Seq<char>) -> Seq<char> {
    "Parameter '"@ + name + "' must be a positive integer, got '"@ + value + "'"@
}

/// The message for a page size above the limit.
pub open spec fn size_too_large_message() -> Seq<char> {
    "Parameter 'size' must not exceed 100"@
}

/// The message for an `orderBy` that names no field.
pub open spec fn no_sort_fields_message() -> Seq<char> {
    "Parameter 'orderBy' must contain at least one field. Valid fields: "@ + all_names_text()
}

/// The message for a blank title.
pub open spec fn empty_title_message() -> Seq<char> {
    "Field 'title' must not be empty"@
}

/// The message for a title over the length limit.
pub open spec fn long_title_message() -> Seq<char> {
    "Field 'title' must be at most 255 characters"@
}

/// The message for blank content.
pub open spec fn empty_content_message() -> Seq<char> {
    "Field 'content' must not be empty"@
}

/// A string filter is accepted when absent or not blank.
pub open spec fn string_filter_rule(raw: Option<Seq<char>>, name: Seq<char>) -> Result<(), ErrorView> {
    match raw {
        Some(s) if blank(s) => Err(ErrorView::Validation(blank_message(name))),
        _ => Ok(()),
    }
}

/// The page number a raw `page` gives: 1 when absent, the trimmed number
/// floored at 1 otherwise.
pub open spec fn page_rule(raw: Option<Seq<char>>) -> Result<u64, ErrorView> {
    match raw {
        None => Ok(DEFAULT_PAGE),
        Some(s) => {
            let t = trim(s);
            if t.len() == 0 {
                Err(ErrorView::Validation(blank_message("page"@)))
            } else {
                match parse_u64(t) {
                    Some(v) => Ok(if v < 1 { 1 } else { v }),
                    None => Err(ErrorView::Validation(not_integer_message("page"@, t))),
                }
            }
        },
    }
}

/// The page size a raw `size` gives: 20 when absent, the trimmed number
/// otherwise, which must not exceed 100. Zero is let through.
pub open spec fn size_rule(raw: Option<Seq<char>>) -> Result<u64, ErrorView> {
    match raw {
        None => Ok(DEFAULT_SIZE),
        Some(s) => {
            let t = trim(s);
            if t.len() == 0 {
                Err(ErrorView::Validation(blank_message("size"@)))
            } else {
                match parse_u64(t) {
                    Some(v) => if v > MAX_SIZE {
                        Err(ErrorView::Validation(size_too_large_message()))
                    } else {
                        Ok(v)
                    },
                    None => Err(ErrorView::Validation(not_integer_message("size"@, t))),
                }
            }
        },
    }
}

/// One trimmed, non-empty sort token: an optional `-` (descending) or `+`
/// (ascending) prefix, then a field name. An unknown name is the error.
pub open spec fn sort_token_rule(t: Seq<char>) -> Result<SortField, Seq<char>> {
    let (direction, name) = if t.len() > 0 && t[0] == '-' {
        (SortDirection::Descending, t.drop_first())
    } else if t.len() > 0 && t[0] == '+' {
        (SortDirection::Ascending, t.drop_first())
    } else {
        (SortDirection::Ascending, t)
    };
    match field_named(name) {
        Some(f) => Ok(SortField { name: f, direction }),
        None => Err(name),
    }
}

/// The sort fields of the pieces of an `orderBy`, in order: each piece is
/// trimmed, empty ones are skipped, and the first unknown name is the error.
pub open spec fn sort_tokens_rule(pieces: Seq<Seq<char>>) -> Result<Seq<SortField>, Seq<char>>
    decreases pieces.len(),
{
    if pieces.len() == 0 {
        Ok(Seq::empty())
    } else {
        match sort_tokens_rule(pieces.drop_last()) {
            Err(name) => Err(name),
            Ok(fields) => {
                let t = trim(pieces.last());
                if t.len() == 0 {
                    Ok(fields)
                } else {
                    match sort_token_rule(t) {
                        Ok(f) => Ok(fields.push(f)),
                        Err(name) => Err(name),
                    }
                }
            },
        }
    }
}

/// The sort fields a raw `orderBy` gives: none when absent; otherwise the
/// comma-separated tokens, of which there must be at least one.
pub open spec fn order_by_rule(raw: Option<Seq<char>>) -> Result<Option<Seq<SortField>>, ErrorView> {
    match raw {
        None => Ok(None),
        Some(s) => match sort_tokens_rule(split_on(s, ',')) {
            Err(name) => Err(ErrorView::Validation(unknown_field_message(name))),
            Ok(fields) => if fields.len() == 0 {
                Err(ErrorView::Validation(no_sort_fields_message()))
            } else {
                Ok(Some(fields))
            },
        },
    }
}

/// The verdict on a title that is present.
pub open spec fn title_rule(title: Seq<char>) -> Result<(), ErrorView> {
    if blank(title) {
        Err(ErrorView::Validation(empty_title_message()))
    } else if title.len() > MAX_TITLE_LEN {
        Err(ErrorView::Validation(long_title_message()))
    } else {
        Ok(())
    }
}

/// The verdict on content that is present.
pub open spec fn content_rule(content: Seq<char>) -> Result<(), ErrorView> {
    if blank(content) {
        Err(ErrorView::Validation(empty_content_message()))
    } else {
        Ok(())
    }
}

/// The verdict on a create request: title first, then content.
pub open spec fn create_rule(title: Seq<char>, content: Seq<char>) -> Result<(), ErrorView> {
    match title_rule(title) {
        Err(e) => Err(e),
        Ok(_) => content_rule(content),
    }
}

/// The verdict on an update request: only present fields are checked,
/// title first.
pub open spec fn update_rule(title: Option<Seq<char>>, content: Option<Seq<char>>) -> Result<(), ErrorView> {
    match title {
        Some(t) if title_rule(t) is Err => title_rule(t),
        _ => match content {
            Some(c) => content_rule(c),
            None => Ok(()),
        },
    }
}

/// The text of an error as a `ServiceError::Validation`.
fn validation_error(message: String) -> (e: ServiceError)
    ensures
        e@ == ErrorView::Validation(message@),
{
    ServiceError::Validation(message)
}

fn blank_error(name: &str) -> (e: ServiceError)
    ensures
        e@ == ErrorView::Validation(blank_message(name@)),
{
    let mut m = String::from_str("Parameter '");
    m.append(name);
    m.append("' must not be blank");
    validation_error(m)
}

fn not_integer_error(name: &str, value: &Vec<char>) -> (e: ServiceError)
    ensures
        e@ == ErrorView::Validation(not_integer_message(name@, value@)),
{
    let v = string_from_chars(value);
    let mut m = String::from_str("Parameter '");
    m.append(name);
    m.append("' must be a positive integer, got '");
    m.append(v.as_str());
    m.append("'");
    validation_error(m)
}

/// Checks that a string filter is not blank when present; `name` is the
/// query-string key that the error names.
pub fn validate_string_filter(raw: &Option<String>, name: &str) -> (r: Result<(), ServiceError>)
    ensures
        crate::error::outcome(r) == string_filter_rule(opt_view(*raw), name@),
{
    match raw {
        None => Ok(()),
        Some(value) => {
            if is_blank(&chars_of(value.as_str())) {
                Err(blank_error(name))
            } else {
                Ok(())
            }
        },
    }
}

/// Parses a trimmed, non-empty number parameter.
fn parse_number(name: &str, t: &Vec<char>) -> (r: Result<u64, ServiceError>)
    ensures
        parse_u64(t@) matches Some(v) ==> r == Ok::<u64, ServiceError>(v),
        parse_u64(t@) is None ==> (r matches Err(e) && e@ == ErrorView::Validation(
            not_integer_message(name@, t@),
        )),
{
    match parse_u64_chars(t) {
        Some(v) => Ok(v),
        None => Err(not_integer_error(name, t)),
    }
}

/// The page number of a raw `page` parameter: 1 when absent; blank or
/// non-numeric values are rejected; a parsed 0 becomes 1.
pub fn validate_page(raw: &Option<String>) -> (r: Result<u64, ServiceError>)
    ensures
        crate::error::outcome(r) == page_rule(opt_view(*raw)),
{
    match raw {
        None => Ok(DEFAULT_PAGE),
        Some(raw) => {
            let t = trim_chars(&chars_of(raw.as_str()));
            if t.len() == 0 {
                return Err(blank_error("page"));
            }
            match parse_number("page", &t) {
                Ok(v) => Ok(if v < 1 { 1 } else { v }),
                Err(e) => Err(e),
            }
        },
    }
}

/// The page size of a raw `size` parameter: 20 when absent; blank,
/// non-numeric or over-100 values are rejected.
pub fn validate_size(raw: &Option<String>) -> (r: Result<u64, ServiceError>)
    ensures
        crate::error::outcome(r) == size_rule(opt_view(*raw)),
{
    match raw {
        None => Ok(DEFAULT_SIZE),
        Some(raw) => {
            let t = trim_chars(&chars_of(raw.as_str()));
            if t.len() == 0 {
                return Err(blank_error("size"));
            }
            let value = match parse_number("size", &t) {
                Ok(v) => v,
                Err(e) => {
                    return Err(e);
                },
            };
            if value > MAX_SIZE {
                return Err(validation_error(String::from_str("Parameter 'size' must not exceed 100")));
            }
            Ok(value)
        },
    }
}


/// Parses one trimmed, non-empty sort token; an unknown field gives back
/// the name that was not recognised.
fn parse_sort_token(t: &Vec<char>) -> (r: Result<SortField, Vec<char>>)
    requires
        t.len() > 0,
    ensures
        sort_token_rule(t@) matches Ok(f) ==> r == Ok::<SortField, Vec<char>>(f),
        sort_token_rule(t@) matches Err(name) ==> (r matches Err(n) && n@ == name),
{
    let (direction, name) = if t[0] == '-' {
        (SortDirection::Descending, sub_chars(t, 1, t.len()))
    } else if t[0] == '+' {
        (SortDirection::Ascending, sub_chars(t, 1, t.len()))
    } else {
        (SortDirection::Ascending, sub_chars(t, 0, t.len()))
    };
    proof {
        assert(t@.drop_first() =~= t@.subrange(1, t@.len() as int));
        assert(t@ =~= t@.subrange(0, t@.len() as int));
    }
    match SortFieldName::from_chars(&name) {
        Some(f) => Ok(SortField { name: f, direction }),
        None => Err(name),
    }
}

proof fn lemma_sort_tokens_error_stays(pieces: Seq<Seq<char>>, j: int, k: int)
    requires
        0 <= j <= k <= pieces.len(),
        sort_tokens_rule(pieces.take(j)) is Err,
    ensures
        sort_tokens_rule(pieces.take(k)) == sort_tokens_rule(pieces.take(j)),
    decreases k - j,
{
    if j < k {
        lemma_sort_tokens_error_stays(pieces, j, k - 1);
        assert(pieces.take(k).drop_last() =~= pieces.take(k - 1));
    }
}

/// The sort fields of a raw `orderBy` parameter: none when absent;
/// otherwise the comma-separated tokens in order, of which there must be at
/// least one, each naming a known field.
pub fn validate_order_by(raw: &Option<String>) -> (r: Result<Option<Vec<SortField>>, ServiceError>)
    ensures
        match order_by_rule(opt_view(*raw)) {
            Ok(None) => r matches Ok(None),
            Ok(Some(fields)) => r matches Ok(Some(v)) && v@ == fields,
            Err(e) => r matches Err(x) && x@ == e,
        },
{
    let text = match raw {
        None => {
            return Ok(None);
        },
        Some(text) => text,
    };
    let s = chars_of(text.as_str());
    let pieces = split_chars(&s, ',');
    let ghost spieces = split_on(s@, ',');
    let mut fields: Vec<SortField> = Vec::new();
    let mut i: usize = 0;
    while i < pieces.len()
        invariant
            opt_view(*raw) == Some(s@),
            spieces == split_on(s@, ','),
            pieces.len() == spieces.len(),
            forall|k: int| 0 <= k < pieces.len() ==> #[trigger] pieces[k]@ == spieces[k],
            i <= pieces.len(),
            sort_tokens_rule(spieces.take(i as int)) == Ok::<Seq<SortField>, Seq<char>>(fields@),
        decreases pieces.len() - i,
    {
        proof {
            assert(spieces.take(i + 1).drop_last() =~= spieces.take(i as int));
            assert(spieces.take(i + 1).last() == pieces[i as int]@);
        }
        let t = trim_chars(&pieces[i]);
        if t.len() > 0 {
            match parse_sort_token(&t) {
                Ok(f) => {
                    fields.push(f);
                },
                Err(name) => {
                    proof {
                        assert(sort_tokens_rule(spieces.take(i + 1)) == Err::<Seq<SortField>, Seq<char>>(name@));
                        lemma_sort_tokens_error_stays(spieces, i + 1, spieces.len() as int);
                        assert(spieces.take(spieces.len() as int) =~= spieces);
                    }
                    let n = string_from_chars(&name);
                    let m = unknown_field_message_text(n.as_str());
                    return Err(validation_error(m));
                },
            }
        }
        i = i + 1;
    }
    assert(spieces.take(spieces.len() as int) =~= spieces);
    if fields.len() == 0 {
        let mut m = String::from_str("Parameter 'orderBy' must contain at least one field. Valid fields: ");
        let names = SortFieldName::all_names();
        m.append(names.as_str());
        return Err(validation_error(m));
    }
    Ok(Some(fields))
}

fn validate_title(title: &String) -> (r: Result<(), ServiceError>)
    ensures
        crate::error::outcome(r) == title_rule(title@),
{
    let chars = chars_of(title.as_str());
    if is_blank(&chars) {
        return Err(validation_error(String::from_str("Field 'title' must not be empty")));
    }
    if chars.len() > MAX_TITLE_LEN {
        return Err(validation_error(String::from_str("Field 'title' must be at most 255 characters")));
    }
    Ok(())
}

fn validate_content(content: &String) -> (r: Result<(), ServiceError>)
    ensures
        crate::error::outcome(r) == content_rule(content@),
{
    if is_blank(&chars_of(content.as_str())) {
        return Err(validation_error(String::from_str("Field 'content' must not be empty")));
    }
    Ok(())
}

impl CreateNoteRequest {
    /// Checks the title (not blank, at most 255 characters), then the
    /// content (not blank).
    pub fn validate(&self) -> (r: Result<(), ServiceError>)
        ensures
            crate::error::outcome(r) == create_rule(self.title@, self.content@),
    {
        match validate_title(&self.title) {
            Err(e) => Err(e),
            Ok(()) => validate_content(&self.content),
        }
    }
}

impl UpdateNoteRequest {
    /// Checks the fields that are present, title first, by the rules of
    /// creation.
    pub fn validate(&self) -> (r: Result<(), ServiceError>)
        ensures
            crate::error::outcome(r) == update_rule(opt_view(self.title), opt_view(self.content)),
    {
        if let Some(title) = &self.title {
            match validate_title(title) {
                Err(e) => {
                    return Err(e);
                },
                Ok(()) => {},
            }
        }
        if let Some(content) = &self.content {
            return validate_content(content);
        }
        Ok(())
    }
}

/// What validation makes of search parameters: the validated page, size and
/// sort fields, or the first error in the order title, content, page, size,
/// orderBy.
pub open spec fn search_rule(
    title: Option<Seq<char>>,
    content: Option<Seq<char>>,
    page: Option<Seq<char>>,
    size: Option<Seq<char>>,
    order_by: Option<Seq<char>>,
) -> Result<(u64, u64, Seq<SortField>), ErrorView> {
    if string_filter_rule(title, "title"@) is Err {
        Err(string_filter_rule(title, "title"@)->Err_0)
    } else if string_filter_rule(content, "content"@) is Err {
        Err(string_filter_rule(content, "content"@)->Err_0)
    } else {
        match (page_rule(page), size_rule(size), order_by_rule(order_by)) {
            (Err(e), _, _) => Err(e),
            (Ok(_), Err(e), _) => Err(e),
            (Ok(_), Ok(_), Err(e)) => Err(e),
            (Ok(p), Ok(z), Ok(None)) => Ok((p, z, Seq::empty())),
            (Ok(p), Ok(z), Ok(Some(fields))) => Ok((p, z, fields)),
        }
    }
}

impl SearchParams {
    /// The verdict of validation on these parameters' raw fields.
    pub open spec fn spec_validated(self) -> Result<(u64, u64, Seq<SortField>), ErrorView> {
        search_rule(
            opt_view(self.title),
            opt_view(self.content),
            opt_view(self.page),
            opt_view(self.size),
            opt_view(self.order_by),
        )
    }

    /// Validates the raw fields and, on success, fills in the parsed page,
    /// size and sort fields (none when `orderBy` is absent). The raw fields
    /// stay as they are.
    pub fn validate(&mut self) -> (r: Result<(), ServiceError>)
        ensures
            final(self).title == old(self).title,
            final(self).content == old(self).content,
            final(self).page == old(self).page,
            final(self).size == old(self).size,
            final(self).order_by == old(self).order_by,
            match old(self).spec_validated() {
                Ok((p, z, fields)) => r is Ok && final(self).parsed_page == p && final(self).parsed_size == z
                    && final(self).sort_fields@ == fields,
                Err(e) => r matches Err(x) && x@ == e,
            },
    {
        match validate_string_filter(&self.title, "title") {
            Err(e) => {
                return Err(e);
            },
            Ok(()) => {},
        }
        match validate_string_filter(&self.content, "content") {
            Err(e) => {
                return Err(e);
            },
            Ok(()) => {},
        }
        let page = match validate_page(&self.page) {
            Err(e) => {
                return Err(e);
            },
            Ok(p) => p,
        };
        let size = match validate_size(&self.size) {
            Err(e) => {
                return Err(e);
            },
            Ok(z) => z,
        };
        let fields = match validate_order_by(&self.order_by) {
            Err(e) => {
                return Err(e);
            },
            Ok(None) => Vec::new(),
            Ok(Some(fields)) => fields,
        };
        self.parsed_page = page;
        self.parsed_size = size;
        self.sort_fields = fields;
        Ok(())
    }
}

} // verus!
