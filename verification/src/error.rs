//! The errors of the server and of the command-line client.
use vstd::prelude::*;

use crate::text::{push_str, starts_with};

verus! {

/// `rusqlite::Error`, the database's error, carried through unchanged.
#[verifier::external_type_specification]
#[verifier::external_body]
pub struct ExDbError(rusqlite::Error);

/// `std::io::Error`, carried through unchanged.
#[verifier::external_type_specification]
#[verifier::external_body]
pub struct ExIoError(std::io::Error);

/// `serde_json::Error`, carried through unchanged.
#[verifier::external_type_specification]
#[verifier::external_body]
pub struct ExJsonError(serde_json::Error);

/// Why the server could not answer a request.
#[derive(Debug)]
pub enum ServerError {
    DbError(rusqlite::Error),
    ParseError(String),
    IoError(std::io::Error),
    JsonError(serde_json::Error),
}

/// Why the command-line client could not run a command.
#[derive(Debug)]
pub enum CliError {
    NotEnoughArguments,
    IoError(std::io::Error),
    CommandNotFound,
    ParseError(String),
    JsonError(serde_json::Error),
}

/// The text of a database error: its `Display`. Nothing is claimed of it.
#[verifier::external_body]
fn db_error_text(e: &rusqlite::Error) -> String {
    e.to_string()
}

/// The text of an I/O error: its `Display`. Nothing is claimed of it.
#[verifier::external_body]
fn io_error_text(e: &std::io::Error) -> String {
    e.to_string()
}

/// The text of a JSON error: its `Display`. Nothing is claimed of it.
#[verifier::external_body]
fn json_error_text(e: &serde_json::Error) -> String {
    e.to_string()
}

/// `prefix` followed by `text`.
fn labelled(prefix: &str, text: &str) -> (m: String)
    ensures
        m@ == prefix@ + text@,
{
    let mut m = String::from_str(prefix);
    push_str(&mut m, text);
    m
}

impl ServerError {
    /// The text that reports this error: a label, then the carried text or
    /// the carried error's own text.
    pub fn message(&self) -> (m: String)
        ensures
            match self {
                ServerError::DbError(_) => starts_with(m@, "DB error: "@),
                ServerError::ParseError(s) => m@ == "Parse Error: "@ + s@,
                ServerError::IoError(_) => starts_with(m@, "I/O Error: "@),
                ServerError::JsonError(_) => starts_with(m@, "Json Error: "@),
            },
    {
        match self {
            ServerError::DbError(e) => labelled_error("DB error: ", db_error_text(e)),
            ServerError::ParseError(s) => labelled("Parse Error: ", s.as_str()),
            ServerError::IoError(e) => labelled_error("I/O Error: ", io_error_text(e)),
            ServerError::JsonError(e) => labelled_error("Json Error: ", json_error_text(e)),
        }
    }
}

impl CliError {
    /// The text that reports this error.
    pub fn message(&self) -> (m: String)
        ensures
            match self {
                CliError::NotEnoughArguments => m@ == "Not enough arguments"@,
                CliError::IoError(_) => starts_with(m@, "I/O Error: "@),
                CliError::CommandNotFound => m@
                    == "Command not found, use 'rweb help' for more information "@,
                CliError::ParseError(s) => m@ == "Parse Error: "@ + s@,
                CliError::JsonError(_) => starts_with(m@, "Json Error: "@),
            },
    {
        match self {
            CliError::NotEnoughArguments => String::from_str("Not enough arguments"),
            CliError::IoError(e) => labelled_error("I/O Error: ", io_error_text(e)),
            CliError::CommandNotFound => String::from_str(
                "Command not found, use 'rweb help' for more information ",
            ),
            CliError::ParseError(s) => labelled("Parse Error: ", s.as_str()),
            CliError::JsonError(e) => labelled_error("Json Error: ", json_error_text(e)),
        }
    }
}

/// `prefix` followed by the text of an error.
fn labelled_error(prefix: &str, text: String) -> (m: String)
    ensures
        starts_with(m@, prefix@),
{
    let m = labelled(prefix, text.as_str());
    assert(m@.take(prefix@.len() as int) =~= prefix@);
    m
}

} // verus!
