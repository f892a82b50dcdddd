//! Decision logic of the note service: creation limits, input
//! shaping, ownership checks and paging.  The queries around these
//! decisions are the storage layer's concern; every rule that
//! accepts, rejects or rewrites data is here.

use vstd::prelude::*;
use vstd::string::StringSliceAdditionalSpecFns;
use vstd::utf8::encode_utf8;

use crate::errors::AppError;
use crate::text::str_eq;
use crate::validation::{
    sanitize_string, spec_trim, validate_note_content, validate_note_title,
};

verus! {

#[derive(Debug, Clone)]
pub struct Note {
    pub id: String,
    pub user_id: String,
    pub title: String,
    pub content: String,
    pub last_edited_by: Option<String>,
    pub is_deleted: bool,
    pub created_at: i64,
    pub updated_at: i64,
}

#[derive(Debug, Clone)]
pub struct NoteResponse {
    pub id: String,
    pub title: String,
    pub content: String,
    pub last_edited_by: Option<String>,
    pub created_at: i64,
    pub updated_at: i64,
    pub tags: Vec<String>,
}

pub struct CreateNoteRequest {
    pub title: String,
    pub content: Option<String>,
}

pub struct UpdateNoteRequest {
    pub title: Option<String>,
    pub content: Option<String>,
}

pub struct NoteListResponse {
    pub notes: Vec<NoteResponse>,
    pub total: i64,
}

pub struct NoteQueryParams {
    pub page: Option<i64>,
    pub limit: Option<i64>,
    pub tag: Option<String>,
}

impl NoteResponse {
    /// The outward view of a stored note, with the given tag names.
    pub fn from_note(note: Note, tags: Vec<String>) -> (r: NoteResponse)
        ensures
            r.id == note.id,
            r.title == note.title,
            r.content == note.content,
            r.last_edited_by == note.last_edited_by,
            r.created_at == note.created_at,
            r.updated_at == note.updated_at,
            r.tags == tags,
    {
        NoteResponse {
            id: note.id,
            title: note.title,
            content: note.content,
            last_edited_by: note.last_edited_by,
            created_at: note.created_at,
            updated_at: note.updated_at,
            tags,
        }
    }
}

/// The note body a creation request supplies: the given content, or
/// empty when none was sent.
pub open spec fn spec_requested_content(content: Option<String>) -> Seq<char> {
    match content {
        Some(c) => c@,
        None => Seq::<char>::empty(),
    }
}

/// Title and body accepted for a new note.
#[derive(Debug)]
pub struct NewNote {
    pub title: String,
    pub content: String,
}

/// Decide a creation request: enforce the per-user note cap, trim
/// and validate the title, and validate the body size.  Exactly the
/// requests passing all three checks are accepted, with the trimmed
/// title and the (possibly defaulted) body.
pub fn prepare_note_creation(
    existing_count: i64,
    max_notes_per_user: i64,
    req: CreateNoteRequest,
    max_size: usize,
) -> (r: Result<NewNote, AppError>)
    ensures
        r is Ok <==> existing_count < max_notes_per_user && spec_trim(req.title@).len() > 0
            && encode_utf8(spec_trim(req.title@)).len() <= 255 && encode_utf8(
            spec_requested_content(req.content),
        ).len() <= max_size,
        r matches Ok(n) ==> n.title@ == spec_trim(req.title@) && n.content@
            == spec_requested_content(req.content),
        existing_count >= max_notes_per_user ==> (r matches Err(e) && e matches AppError::Forbidden(
            m,
        ) && m@ == "Note limit reached"@),
        (r matches Err(e) && e matches AppError::Forbidden(_)) ==> existing_count
            >= max_notes_per_user,
        r matches Err(e) ==> (e matches AppError::Forbidden(_) || e
            matches AppError::ValidationError(_)),
{
    if existing_count >= max_notes_per_user {
        return Err(AppError::Forbidden(String::from_str("Note limit reached")));
    }
    let title = sanitize_string(req.title.as_str());
    match validate_note_title(title.as_str()) {
        Ok(_) => {},
        Err(e) => {
            return Err(e);
        },
    }
    let content = match req.content {
        Some(c) => c,
        None => String::new(),
    };
    match validate_note_content(content.as_str(), max_size) {
        Ok(_) => {},
        Err(e) => {
            return Err(e);
        },
    }
    Ok(NewNote { title, content })
}

/// Ownership check for reads: a missing note is not found, a note
/// owned by someone else is forbidden, the owner gets the note.
pub fn authorize_note_access(note: Option<Note>, user_id: &str) -> (r: Result<Note, AppError>)
    ensures
        note is None ==> (r matches Err(e) && e matches AppError::NotFound(m) && m@
            == "Note not found"@),
        note matches Some(n) && n.user_id@ != user_id@ ==> (r matches Err(e) && e
            matches AppError::Forbidden(m) && m@ == "Not authorized to access this note"@),
        note matches Some(n) && n.user_id@ == user_id@ ==> r is Ok,
        r matches Ok(out) ==> note == Some(out) && out.user_id@ == user_id@,
{
    match note {
        None => Err(AppError::NotFound(String::from_str("Note not found"))),
        Some(n) => {
            if str_eq(n.user_id.as_str(), user_id) {
                Ok(n)
            } else {
                Err(
                    AppError::Forbidden(
                        String::from_str("Not authorized to access this note"),
                    ),
                )
            }
        },
    }
}

/// Ownership check for updates and deletes; same shape as the read
/// check, with the terser message those sites use.
pub fn authorize_note_change(note: Option<Note>, user_id: &str) -> (r: Result<Note, AppError>)
    ensures
        note is None ==> (r matches Err(e) && e matches AppError::NotFound(m) && m@
            == "Note not found"@),
        note matches Some(n) && n.user_id@ != user_id@ ==> (r matches Err(e) && e
            matches AppError::Forbidden(m) && m@ == "Not authorized"@),
        note matches Some(n) && n.user_id@ == user_id@ ==> r is Ok,
        r matches Ok(out) ==> note == Some(out) && out.user_id@ == user_id@,
{
    match note {
        None => Err(AppError::NotFound(String::from_str("Note not found"))),
        Some(n) => {
            if str_eq(n.user_id.as_str(), user_id) {
                Ok(n)
            } else {
                Err(AppError::Forbidden(String::from_str("Not authorized")))
            }
        },
    }
}

/// The title an update leaves in place: the requested one, or the
/// stored one when the request omits it.
pub open spec fn spec_updated_title(req_title: Option<String>, note: Note) -> Seq<char> {
    match req_title {
        Some(t) => t@,
        None => note.title@,
    }
}

/// The body an update leaves in place.
pub open spec fn spec_updated_content(req_content: Option<String>, note: Note) -> Seq<char> {
    match req_content {
        Some(c) => c@,
        None => note.content@,
    }
}

/// Merge an update request with the stored note and validate the
/// outcome: exactly the merges with a valid title and a body within
/// the cap are accepted.
pub fn merge_note_update(note: &Note, req: UpdateNoteRequest, max_size: usize) -> (r: Result<
    NewNote,
    AppError,
>)
    ensures
        r is Ok <==> spec_updated_title(req.title, *note).len() > 0 && encode_utf8(
            spec_updated_title(req.title, *note),
        ).len() <= 255 && encode_utf8(spec_updated_content(req.content, *note)).len() <= max_size,
        r matches Ok(n) ==> n.title@ == spec_updated_title(req.title, *note) && n.content@
            == spec_updated_content(req.content, *note),
        r matches Err(e) ==> e matches AppError::ValidationError(_),
{
    let title = match req.title {
        Some(t) => t,
        None => clone_field(&note.title),
    };
    let content = match req.content {
        Some(c) => c,
        None => clone_field(&note.content),
    };
    match validate_note_title(title.as_str()) {
        Ok(_) => {},
        Err(e) => {
            return Err(e);
        },
    }
    match validate_note_content(content.as_str(), max_size) {
        Ok(_) => {},
        Err(e) => {
            return Err(e);
        },
    }
    Ok(NewNote { title, content })
}

/// The page a listing request resolves to: the requested one,
/// floored at one.
pub open spec fn spec_page(params: NoteQueryParams) -> int {
    match params.page {
        Some(p) => if p >= 1 {
            p as int
        } else {
            1int
        },
        None => 1int,
    }
}

/// The page size a listing request resolves to: the requested one,
/// capped at one hundred.
pub open spec fn spec_page_limit(params: NoteQueryParams) -> int {
    match params.limit {
        Some(l) => if l <= 100 {
            l as int
        } else {
            100int
        },
        None => 20int,
    }
}

/// Resolve paging for a listing request: page floored at one, page
/// size capped at one hundred, and the offset of the first row.
pub fn resolve_paging(params: &NoteQueryParams) -> (r: (i64, i64, i64))
    requires
        i64::MIN <= (spec_page(*params) - 1) * spec_page_limit(*params) <= i64::MAX,
    ensures
        r.0 == spec_page(*params),
        r.1 == spec_page_limit(*params),
        r.2 == (spec_page(*params) - 1) * spec_page_limit(*params),
{
    let page = match params.page {
        Some(p) => if p >= 1 {
            p
        } else {
            1
        },
        None => 1,
    };
    let limit = match params.limit {
        Some(l) => if l <= 100 {
            l
        } else {
            100
        },
        None => 20,
    };
    let offset = (page - 1) * limit;
    (page, limit, offset)
}

fn clone_field(s: &String) -> (r: String)
    ensures
        r@ == s@,
{
    s.as_str().to_owned()
}

} // verus!
