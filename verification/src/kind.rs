//! The kinds of tag.

use crate::text::same_text;
use vstd::prelude::*;

verus! {

/// What a tag marks.
#[derive(Clone, Copy, Debug, PartialEq, Eq, Structural)]
pub enum TagKind {
    /// The definition of a function.
    Function,
    /// The definition of a method.
    Method,
    /// The definition of a class.
    Class,
    /// The definition of a module.
    Module,
    /// A call of a function or method.
    Call,
}

impl TagKind {
    /// The word that a report shows for this kind.
    pub open spec fn label_text(self) -> Seq<char> {
        match self {
            TagKind::Function => "Function"@,
            TagKind::Method => "Method"@,
            TagKind::Class => "Class"@,
            TagKind::Module => "Module"@,
            TagKind::Call => "Call"@,
        }
    }

    /// The kind that a capture around a whole match stands for. `name` is the
    /// capture's name without its `definition.` or `reference.` prefix, and
    /// `is_definition` says which of the two the prefix was. Functions,
    /// methods, classes and modules are tagged where they are defined, calls
    /// where they are made; no other capture stands for a kind.
    pub open spec fn of_capture(name: Seq<char>, is_definition: bool) -> Option<TagKind> {
        if is_definition {
            if name == "function"@ {
                Some(TagKind::Function)
            } else if name == "method"@ {
                Some(TagKind::Method)
            } else if name == "class"@ {
                Some(TagKind::Class)
            } else if name == "module"@ {
                Some(TagKind::Module)
            } else {
                None
            }
        } else if name == "call"@ {
            Some(TagKind::Call)
        } else {
            None
        }
    }

    /// The word that a report shows for this kind: the kind's own name.
    pub fn label(&self) -> (label: &'static str)
        ensures
            label@ == self.label_text(),
    {
        match self {
            TagKind::Function => "Function",
            TagKind::Method => "Method",
            TagKind::Class => "Class",
            TagKind::Module => "Module",
            TagKind::Call => "Call",
        }
    }

    /// The kind that a capture around a whole match stands for, if any.
    pub fn from_capture(name: &str, is_definition: bool) -> (kind: Option<TagKind>)
        ensures
            kind == TagKind::of_capture(name@, is_definition),
    {
        if is_definition {
            if same_text(name, "function") {
                Some(TagKind::Function)
            } else if same_text(name, "method") {
                Some(TagKind::Method)
            } else if same_text(name, "class") {
                Some(TagKind::Class)
            } else if same_text(name, "module") {
                Some(TagKind::Module)
            } else {
                None
            }
        } else if same_text(name, "call") {
            Some(TagKind::Call)
        } else {
            None
        }
    }
}

} // verus!
