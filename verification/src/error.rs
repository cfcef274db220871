//! Why a tag query did not compile or a document was not tagged.

use crate::directive::DirectiveFault;
use crate::patterns::{fault_pattern, pattern_of_fault};
use vstd::prelude::*;

verus! {

/// What is wrong in the text of a tag query, and where.
#[derive(Debug)]
pub struct QueryFault {
    /// The number of the pattern at fault, counted from zero over the
    /// patterns for locals and those for tags together.
    pub pattern: usize,
    /// The line of the fault in the query text, counted from zero.
    pub row: usize,
    /// The byte of the fault in its line, counted from zero.
    pub column: usize,
    /// The byte of the fault in the query text.
    pub offset: usize,
    /// The fault in words, with the construct that it lies in: the syntax,
    /// the name of a node type, of a field or of a capture, a directive, or
    /// the structure of a pattern.
    pub message: String,
}

/// A failure to compile a tag query or to tag a document.
#[derive(Debug)]
pub enum TagsError {
    /// The tag query is malformed.
    Query(QueryFault),
    /// A directive of the tag query is not well formed: it has a name that
    /// no directive has, arguments that its name does not take, or a capture
    /// that its pattern does not declare.
    Directive(DirectiveFault),
    /// The pattern handed to a `#strip!` directive is no regular expression.
    Regex(String),
    /// The work was stopped before it was done.
    Cancelled,
    /// The language cannot be used for parsing.
    InvalidLanguage(String),
    /// The tag query names a capture that has no role in tagging.
    InvalidCapture(String),
}

/// A failure as the parser and the matcher report it: a fault in a tag query
/// comes with its place, not with its pattern.
#[derive(Debug)]
pub enum Failure {
    /// The tag query is malformed at the given place of its text.
    Query { row: usize, column: usize, offset: usize, message: String },
    /// The pattern handed to a `#strip!` directive is no regular expression.
    Regex(String),
    /// The work was stopped before it was done.
    Cancelled,
    /// The language cannot be used for parsing.
    InvalidLanguage(String),
    /// The tag query names a capture that has no role in tagging.
    InvalidCapture(String),
}

/// Whether two errors tell the same: the same fault of a directive, its name
/// being of the same characters, or else equal errors.
pub open spec fn same_error(first: TagsError, second: TagsError) -> bool {
    match (first, second) {
        (TagsError::Directive(one), TagsError::Directive(other)) => {
            &&& one.pattern == other.pattern
            &&& one.directive == other.directive
            &&& one.kind == other.kind
            &&& one.name@ == other.name@
        },
        _ => first == second,
    }
}

impl Failure {
    /// This failure as an error: a fault in the tag query with the pattern
    /// that it belongs to, every other failure as it is.
    pub open spec fn error_in(self, query_text: Seq<u8>) -> TagsError {
        match self {
            Failure::Query { row, column, offset, message } => TagsError::Query(
                QueryFault {
                    pattern: fault_pattern(query_text, row as nat, offset as int) as usize,
                    row,
                    column,
                    offset,
                    message,
                },
            ),
            Failure::Regex(message) => TagsError::Regex(message),
            Failure::Cancelled => TagsError::Cancelled,
            Failure::InvalidLanguage(message) => TagsError::InvalidLanguage(message),
            Failure::InvalidCapture(name) => TagsError::InvalidCapture(name),
        }
    }

    /// Makes the error of this failure in a tag query with the text
    /// `query_text`.
    pub fn into_error(self, query_text: &[u8]) -> (error: TagsError)
        ensures
            error == self.error_in(query_text@),
            !(error is Directive),
            error matches TagsError::Query(fault) ==> fault.pattern == fault_pattern(
                query_text@,
                fault.row as nat,
                fault.offset as int,
            ),
    {
        match self {
            Failure::Query { row, column, offset, message } => TagsError::Query(
                QueryFault {
                    pattern: pattern_of_fault(query_text, row, offset),
                    row,
                    column,
                    offset,
                    message,
                },
            ),
            Failure::Regex(message) => TagsError::Regex(message),
            Failure::Cancelled => TagsError::Cancelled,
            Failure::InvalidLanguage(message) => TagsError::InvalidLanguage(message),
            Failure::InvalidCapture(name) => TagsError::InvalidCapture(name),
        }
    }
}

impl Clone for QueryFault {
    fn clone(&self) -> (copy: QueryFault)
        ensures
            copy == *self,
    {
        QueryFault {
            pattern: self.pattern,
            row: self.row,
            column: self.column,
            offset: self.offset,
            message: self.message.clone(),
        }
    }
}

impl Clone for TagsError {
    fn clone(&self) -> (copy: TagsError)
        ensures
            copy == *self,
    {
        match self {
            TagsError::Query(fault) => TagsError::Query(fault.clone()),
            TagsError::Directive(fault) => TagsError::Directive(
                DirectiveFault {
                    pattern: fault.pattern,
                    directive: fault.directive,
                    name: fault.name.clone(),
                    kind: fault.kind,
                },
            ),
            TagsError::Regex(message) => TagsError::Regex(message.clone()),
            TagsError::Cancelled => TagsError::Cancelled,
            TagsError::InvalidLanguage(message) => TagsError::InvalidLanguage(message.clone()),
            TagsError::InvalidCapture(name) => TagsError::InvalidCapture(name.clone()),
        }
    }
}

} // verus!
