//! Plain LSP data shapes used by callers when building request parameters
//! and reading results.
use vstd::prelude::*;

verus! {

/// A zero-based line/character position in a document.
#[derive(Clone, Copy, Debug, PartialEq, Eq, Structural)]
pub struct Position {
    pub line: u64,
    pub character: u64,
}

/// A span in a document; the end position is exclusive.
#[derive(Clone, Copy, Debug, PartialEq, Eq, Structural)]
pub struct Range {
    pub start: Position,
    pub end: Position,
}

/// A span inside a named document.
#[derive(Clone, Debug)]
pub struct Location {
    pub uri: String,
    pub range: Range,
}

#[derive(Clone, Copy, Debug, PartialEq, Eq, Structural)]
pub enum DiagnosticSeverity {
    Error,
    Warning,
    Information,
    Hint,
}

/// One published diagnostic.
#[derive(Clone, Debug)]
pub struct Diagnostic {
    pub range: Range,
    pub severity: Option<DiagnosticSeverity>,
    pub code: Option<i32>,
    pub source: Option<String>,
    pub message: String,
}

/// A replacement of one span by new text.
#[allow(non_snake_case)]
#[derive(Clone, Debug)]
pub struct TextEdit {
    pub range: Range,
    pub newText: String,
}

/// A document named by its URI.
#[derive(Clone, Debug)]
pub struct TextDocumentIdentifier {
    pub uri: String,
}

/// A document with its content and version.
#[allow(non_snake_case)]
#[derive(Clone, Debug)]
pub struct TextDocumentItem {
    pub uri: String,
    pub languageId: String,
    pub version: i32,
    pub text: String,
}

/// A document identifier pinned to a version.
#[allow(non_snake_case)]
#[derive(Clone, Debug)]
pub struct VersionedTextDocumentIdentifier {
    pub uri: String,
    pub languageId: String,
    pub text: String,
    pub version: i32,
}

/// A position inside an identified document.
#[allow(non_snake_case)]
#[derive(Clone, Debug)]
pub struct TextDocumentPositionParams {
    pub textDocument: TextDocumentIdentifier,
    pub position: Position,
}

} // verus!
