//! The two documents that are kept as files in the home directory: where
//! they lie, and what saving and loading them answers.

use crate::files::FileRead;
use crate::text::{append_str, join_text, text_result, unit_result};
use vstd::prelude::*;

verus! {

/// A document that is kept in the home directory.
#[derive(Clone, Copy, Debug, PartialEq, Eq, Structural)]
pub enum Document {
    Tasks,
    CaptainsLog,
}

impl Document {
    /// The name of the document's file in the home directory.
    pub open spec fn file_name_text(self) -> Seq<char> {
        match self {
            Document::Tasks => ".lcars-os-tasks.json"@,
            Document::CaptainsLog => ".lcars-os-captains-log.json"@,
        }
    }

    /// What the document is called in messages.
    pub open spec fn noun(self) -> Seq<char> {
        match self {
            Document::Tasks => "tasks"@,
            Document::CaptainsLog => "log"@,
        }
    }

    /// The name of the document's file in the home directory.
    pub fn file_name(&self) -> (name: String)
        ensures
            name@ == self.file_name_text(),
    {
        match self {
            Document::Tasks => ".lcars-os-tasks.json".to_owned(),
            Document::CaptainsLog => ".lcars-os-captains-log.json".to_owned(),
        }
    }

    /// What the document is called in messages.
    pub fn name(&self) -> (noun: &'static str)
        ensures
            noun@ == self.noun(),
    {
        match self {
            Document::Tasks => "tasks",
            Document::CaptainsLog => "log",
        }
    }
}

/// What a document holds before it was ever saved: the empty list.
pub open spec fn empty_document() -> Seq<char> {
    "[]"@
}

/// What saving a document answers, for what writing its file gave.
pub open spec fn save_result(doc: Document, written: Result<(), String>) -> Result<
    (),
    Seq<char>,
> {
    match written {
        Ok(()) => Ok(()),
        Err(cause) => Err("Cannot save "@ + doc.noun() + ": "@ + cause@),
    }
}

/// What loading a document answers, for what was found of its file: the
/// file's text, the empty list where there is no file, or the message with
/// the cause where reading failed.
pub open spec fn load_result(doc: Document, read: FileRead) -> Result<Seq<char>, Seq<char>> {
    match read {
        FileRead::Absent => Ok(empty_document()),
        FileRead::Text(text) => Ok(text@),
        FileRead::Unreadable(cause) => Err("Cannot load "@ + doc.noun() + ": "@ + cause@),
    }
}

/// Answers a request to save a document from what writing its file gave.
pub fn save_outcome(doc: Document, written: Result<(), String>) -> (r: Result<(), String>)
    ensures
        unit_result(r) == save_result(doc, written),
{
    match written {
        Ok(()) => Ok(()),
        Err(cause) => {
            let mut message = join_text("Cannot save ", doc.name());
            append_str(&mut message, ": ");
            append_str(&mut message, cause.as_str());
            Err(message)
        },
    }
}

/// Answers a request to load a document from what was found of its file.
pub fn load_outcome(doc: Document, read: FileRead) -> (r: Result<String, String>)
    ensures
        text_result(r) == load_result(doc, read),
{
    match read {
        FileRead::Absent => Ok("[]".to_owned()),
        FileRead::Text(text) => Ok(text),
        FileRead::Unreadable(cause) => {
            let mut message = join_text("Cannot load ", doc.name());
            append_str(&mut message, ": ");
            append_str(&mut message, cause.as_str());
            Err(message)
        },
    }
}

} // verus!
