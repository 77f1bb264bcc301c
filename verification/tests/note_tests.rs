use quicknote::error::StoreError;
use quicknote::note::branch_note;
use quicknote::note::create_note;
use quicknote::note::generate_title_and_tags;
use quicknote::note::get_note_history;
use quicknote::note::get_recent_notes;
use quicknote::note::resume_note;

#[test]
fn create_note_keeps_caller_fields() {
    let n = create_note(
        "the content".to_string(),
        Some("the title".to_string()),
        vec!["x".to_string(), "y".to_string()],
    )
    .unwrap();
    assert_eq!(n.content, "the content");
    assert_eq!(n.title, Some("the title".to_string()));
    assert_eq!(n.tags, vec!["x".to_string(), "y".to_string()]);
    assert_eq!(n.version, 1);
    assert_eq!(n.parent_id, None);
}

#[test]
fn create_note_draws_a_hyphenated_id() {
    let n = create_note("c".to_string(), None, Vec::new()).unwrap();
    assert_eq!(n.id.len(), 36);
    assert_eq!(n.id.chars().filter(|c| *c == '-').count(), 4);
}

#[test]
fn recent_notes_placeholder_is_empty() {
    assert!(get_recent_notes(7).unwrap().is_empty());
}

#[test]
fn resume_note_is_not_implemented() {
    let r = resume_note("some-id".to_string());
    assert_eq!(r.unwrap_err(), StoreError::NotImplemented);
}

#[test]
fn branch_note_is_not_implemented() {
    let r = branch_note("some-id".to_string());
    assert_eq!(r.unwrap_err(), StoreError::NotImplemented);
}

#[test]
fn note_history_placeholder_is_empty() {
    assert!(get_note_history("some-id".to_string()).unwrap().is_empty());
}

#[test]
fn title_and_tags_placeholder() {
    let (title, tags) = generate_title_and_tags("whatever".to_string()).unwrap();
    assert_eq!(title, "Untitled Note");
    assert_eq!(tags, vec!["general".to_string()]);
}

#[test]
fn error_messages() {
    assert_eq!(StoreError::LockUnavailable.message(), "store lock unavailable");
    assert_eq!(StoreError::NotImplemented.message(), "Not implemented");
    assert_eq!(
        StoreError::WindowOperationFailed("boom".to_string()).message(),
        "boom"
    );
}
