//! Plain markdown notes, reporting failures as `MDError`.

use vstd::prelude::*;
use crate::note::{all_renderable, note_body, notes_match, render_body, render_notes, Note};
use crate::store::Record;

verus! {

/// A failure while producing markdown notes.
#[derive(Debug, Clone)]
pub struct MDError {
    pub message: String,
}

impl MDError {
    /// The message, prefixed as it is shown to a user.
    pub fn to_string(&self) -> (r: String)
        ensures
            r@ == "BibError: "@ + self.message@,
    {
        String::from_str("BibError: ").concat(self.message.as_str())
    }
}

/// An error carrying `message`.
pub fn create_mderror(message: &str) -> (r: MDError)
    ensures
        r.message@ == message@,
{
    MDError { message: String::from_str(message) }
}

/// The text of a plain note: title heading, authors, URL and a rule.
pub fn create_md_output(title: &String, authors: &String, url: &String) -> (r: String)
    ensures
        r@ == note_body(title@, authors@, url@),
{
    render_body(title, authors, url)
}

/// The plain notes of the records whose note does not exist yet
/// (`exists[i]` is false), in order; fails on the first of them that lacks
/// a note field.
pub fn create_notes(records: &Vec<Record>, exists: &Vec<bool>) -> (r: Result<Vec<Note>, MDError>)
    requires
        exists@.len() == records@.len(),
    ensures
        r is Ok <==> all_renderable(records@, exists@),
        r matches Ok(notes) ==> notes_match(records@, exists@, notes@, false),
        r matches Err(e) ==> e.message@ == "Failed to create markdown formatted output."@,
{
    match render_notes(records, exists, false) {
        Ok(notes) => Ok(notes),
        Err(_) => Err(create_mderror("Failed to create markdown formatted output.")),
    }
}

} // verus!
