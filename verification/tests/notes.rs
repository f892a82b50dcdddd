use noteflow_backend::errors::AppError;
use noteflow_backend::notes::{
    authorize_note_access, authorize_note_change, merge_note_update, prepare_note_creation,
    resolve_paging, CreateNoteRequest, NoteQueryParams, NoteResponse, Note, UpdateNoteRequest,
};

fn stored_note(user_id: &str) -> Note {
    Note {
        id: String::from("n1"),
        user_id: String::from(user_id),
        title: String::from("Old title"),
        content: String::from("Old content"),
        last_edited_by: None,
        is_deleted: false,
        created_at: 100,
        updated_at: 200,
    }
}

#[test]
fn creation_trims_title_and_defaults_content() {
    let req = CreateNoteRequest { title: String::from("  My note  "), content: None };
    let new_note = prepare_note_creation(0, 50, req, 1024).unwrap();
    assert_eq!(new_note.title, "My note");
    assert_eq!(new_note.content, "");
}

#[test]
fn creation_enforces_the_note_cap() {
    let req = CreateNoteRequest { title: String::from("T"), content: None };
    match prepare_note_creation(50, 50, req, 1024).unwrap_err() {
        AppError::Forbidden(m) => assert_eq!(m, "Note limit reached"),
        other => panic!("expected forbidden, got {:?}", other),
    }
}

#[test]
fn creation_rejects_blank_titles_and_oversized_bodies() {
    let blank = CreateNoteRequest { title: String::from("   "), content: None };
    assert!(matches!(
        prepare_note_creation(0, 50, blank, 1024).unwrap_err(),
        AppError::ValidationError(_)
    ));
    let big = CreateNoteRequest {
        title: String::from("T"),
        content: Some(String::from("abcdef")),
    };
    assert!(matches!(
        prepare_note_creation(0, 50, big, 5).unwrap_err(),
        AppError::ValidationError(_)
    ));
}

#[test]
fn read_authorization() {
    assert!(matches!(
        authorize_note_access(None, "u1").unwrap_err(),
        AppError::NotFound(_)
    ));
    match authorize_note_access(Some(stored_note("owner")), "intruder").unwrap_err() {
        AppError::Forbidden(m) => assert_eq!(m, "Not authorized to access this note"),
        other => panic!("expected forbidden, got {:?}", other),
    }
    let note = authorize_note_access(Some(stored_note("u1")), "u1").unwrap();
    assert_eq!(note.title, "Old title");
}

#[test]
fn change_authorization() {
    assert!(matches!(
        authorize_note_change(None, "u1").unwrap_err(),
        AppError::NotFound(_)
    ));
    match authorize_note_change(Some(stored_note("owner")), "intruder").unwrap_err() {
        AppError::Forbidden(m) => assert_eq!(m, "Not authorized"),
        other => panic!("expected forbidden, got {:?}", other),
    }
    assert!(authorize_note_change(Some(stored_note("u1")), "u1").is_ok());
}

#[test]
fn update_merges_missing_fields_from_the_stored_note() {
    let note = stored_note("u1");
    let req = UpdateNoteRequest { title: None, content: Some(String::from("New content")) };
    let merged = merge_note_update(&note, req, 1024).unwrap();
    assert_eq!(merged.title, "Old title");
    assert_eq!(merged.content, "New content");

    let req = UpdateNoteRequest { title: Some(String::from("New title")), content: None };
    let merged = merge_note_update(&note, req, 1024).unwrap();
    assert_eq!(merged.title, "New title");
    assert_eq!(merged.content, "Old content");
}

#[test]
fn update_validates_the_merged_result() {
    let note = stored_note("u1");
    let req = UpdateNoteRequest { title: Some(String::new()), content: None };
    assert!(matches!(
        merge_note_update(&note, req, 1024).unwrap_err(),
        AppError::ValidationError(_)
    ));
    let req = UpdateNoteRequest { title: None, content: Some(String::from("too big")) };
    assert!(matches!(
        merge_note_update(&note, req, 3).unwrap_err(),
        AppError::ValidationError(_)
    ));
}

#[test]
fn paging_defaults_and_clamps() {
    let params = NoteQueryParams { page: None, limit: None, tag: None };
    assert_eq!(resolve_paging(&params), (1, 20, 0));
    let params = NoteQueryParams { page: Some(0), limit: Some(500), tag: None };
    assert_eq!(resolve_paging(&params), (1, 100, 0));
    let params = NoteQueryParams { page: Some(3), limit: Some(10), tag: None };
    assert_eq!(resolve_paging(&params), (3, 10, 20));
}

#[test]
fn note_response_carries_the_tags() {
    let note = stored_note("u1");
    let tags = vec![String::from("work"), String::from("todo")];
    let response = NoteResponse::from_note(note, tags);
    assert_eq!(response.id, "n1");
    assert_eq!(response.title, "Old title");
    assert_eq!(response.tags, vec![String::from("work"), String::from("todo")]);
}

#[test]
fn error_statuses_and_messages() {
    let cases: Vec<(AppError, u16)> = vec![
        (AppError::DatabaseError(String::from("secret detail")), 500),
        (AppError::RedisError(String::from("secret detail")), 500),
        (AppError::AuthenticationError(String::from("Invalid token")), 401),
        (AppError::ValidationError(String::from("bad input")), 400),
        (AppError::NotFound(String::from("Note not found")), 404),
        (AppError::Forbidden(String::from("Not authorized")), 403),
        (AppError::InternalError(String::from("secret detail")), 500),
        (AppError::BadRequest(String::from("bad request")), 400),
        (AppError::Conflict(String::from("Email already registered")), 409),
        (AppError::RateLimitExceeded, 429),
    ];
    for (error, status) in cases {
        assert_eq!(error.status_code(), status);
    }
    // Server-side details never leak outward.
    assert_eq!(
        AppError::DatabaseError(String::from("secret detail")).public_message(),
        "Database error occurred"
    );
    assert_eq!(
        AppError::RedisError(String::from("secret detail")).public_message(),
        "Cache error occurred"
    );
    assert_eq!(
        AppError::InternalError(String::from("secret detail")).public_message(),
        "Internal server error"
    );
    // User-triggered errors keep their message.
    assert_eq!(
        AppError::NotFound(String::from("Note not found")).public_message(),
        "Note not found"
    );
    assert_eq!(AppError::RateLimitExceeded.public_message(), "Rate limit exceeded");
    // Severity classification: only server faults log at error level.
    assert!(AppError::InternalError(String::from("x")).is_server_fault());
    assert!(AppError::DatabaseError(String::from("x")).is_server_fault());
    assert!(!AppError::RateLimitExceeded.is_server_fault());
    assert!(!AppError::AuthenticationError(String::from("x")).is_server_fault());
}
