//! The durable note schema and the commands around it.
//!
//! `Note` and `NoteVersion` are forward-declared shapes: no backing
//! store exists for them here, so every command that would fetch or
//! version a note either returns placeholder data or reports that it
//! is not implemented. Only `create_note` builds a real value, with a
//! fresh id and the current time taken from the host.

use vstd::prelude::*;
use crate::error::StoreError;

verus! {

/// A durable note. Timestamps are unix-epoch milliseconds; `version`
/// starts at 1, and `parent_id` names the note this one was branched
/// from, if any.
#[derive(Debug, Clone, PartialEq, Eq)]
pub struct Note {
    pub id: String,
    pub content: String,
    pub title: Option<String>,
    pub tags: Vec<String>,
    pub created_at: i64,
    pub updated_at: i64,
    pub version: u32,
    pub parent_id: Option<String>,
}

/// One entry of a note's version history.
#[derive(Debug, Clone, PartialEq, Eq)]
pub struct NoteVersion {
    pub id: String,
    pub note_id: String,
    pub content: String,
    pub version: u32,
    pub created_at: i64,
}

/// Relies on uuid::Uuid::new_v4 and its Display form: the hyphenated
/// rendering of a fresh random UUID, always 36 characters.
#[verifier::external_body]
fn fresh_note_id() -> (r: String)
    ensures
        r@.len() == 36,
{
    uuid::Uuid::new_v4().to_string()
}

/// Relies on chrono::Utc::now and DateTime::timestamp_millis: the
/// current time as unix-epoch milliseconds. Nothing is promised of
/// the clock's value.
#[verifier::external_body]
fn now_millis() -> (r: i64) {
    chrono::Utc::now().timestamp_millis()
}

/// Builds a fresh note from the caller's content, title and tags: a
/// newly drawn id, the current time as both timestamps, version 1 and
/// no parent. Always succeeds; saving the note durably is outside
/// this core.
pub fn create_note(content: String, title: Option<String>, tags: Vec<String>) -> (r: Result<
    Note,
    StoreError,
>)
    ensures
        r is Ok,
        r matches Ok(n) ==> n.content == content && n.title == title && n.tags == tags
            && n.version == 1 && n.parent_id is None && n.id@.len() == 36,
{
    let note = Note {
        id: fresh_note_id(),
        content,
        title,
        tags,
        created_at: now_millis(),
        updated_at: now_millis(),
        version: 1,
        parent_id: None,
    };
    Ok(note)
}

/// Placeholder: no note database exists, so the recent-notes query
/// always answers with the empty list.
pub fn get_recent_notes(_days: u32) -> (r: Result<Vec<Note>, StoreError>)
    ensures
        r matches Ok(v) && v@.len() == 0,
{
    Ok(Vec::new())
}

/// Placeholder: resuming a note is not implemented, and the command
/// reports exactly that.
pub fn resume_note(_note_id: String) -> (r: Result<Note, StoreError>)
    ensures
        r matches Err(e) && e is NotImplemented,
{
    Err(StoreError::NotImplemented)
}

/// Placeholder: branching a note is not implemented, and the command
/// reports exactly that.
pub fn branch_note(_note_id: String) -> (r: Result<Note, StoreError>)
    ensures
        r matches Err(e) && e is NotImplemented,
{
    Err(StoreError::NotImplemented)
}

/// Placeholder: no version history exists, so the query always
/// answers with the empty list.
pub fn get_note_history(_note_id: String) -> (r: Result<Vec<NoteVersion>, StoreError>)
    ensures
        r matches Ok(v) && v@.len() == 0,
{
    Ok(Vec::new())
}

/// Placeholder for the external title/tag generator: a fixed title
/// and the single tag "general".
pub fn generate_title_and_tags(_content: String) -> (r: Result<(String, Vec<String>), StoreError>)
    ensures
        r matches Ok(p) && p.0@ == "Untitled Note"@ && p.1@.len() == 1 && p.1@[0]@ == "general"@,
{
    let title = String::from_str("Untitled Note");
    let mut tags: Vec<String> = Vec::new();
    tags.push(String::from_str("general"));
    Ok((title, tags))
}

} // verus!
