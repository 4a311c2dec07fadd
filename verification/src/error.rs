//! Why a run of the generator ends without text.

use vstd::prelude::*;
use vstd::string::*;

verus! {

/// A schema for which nothing is generated. A run that meets one of these
/// ends there: no text is handed out for it, not even in part.
#[derive(Debug, PartialEq, Eq)]
pub enum GenerateError {
    /// A complex type whose content model is a choice. `path` is the name the
    /// type goes by in the schema: its own, or that of the element that owns
    /// it, or the owning type's name, `_` and the attribute's name.
    UnsupportedChoice { path: String },
    /// A type that has no name and that no element or attribute owns.
    UnnamedType,
    /// Two named types of a schema whose names give the same type identifier.
    NameCollision { identifier: String },
}

/// What a [`GenerateError`] says, as plain values.
pub enum Fault {
    UnsupportedChoice { path: Seq<char> },
    UnnamedType,
    NameCollision { identifier: Seq<char> },
}

impl View for GenerateError {
    type V = Fault;

    open spec fn view(&self) -> Fault {
        match *self {
            GenerateError::UnsupportedChoice { path } => Fault::UnsupportedChoice { path: path@ },
            GenerateError::UnnamedType => Fault::UnnamedType,
            GenerateError::NameCollision { identifier } => Fault::NameCollision {
                identifier: identifier@,
            },
        }
    }
}

/// The sentence that reports `fault`.
pub open spec fn fault_message(fault: Fault) -> Seq<char> {
    match fault {
        Fault::UnsupportedChoice { path } => "unsupported construct: choice in complex type "@
            + path,
        Fault::UnnamedType => "unsupported construct: a type without a name that nothing owns"@,
        Fault::NameCollision { identifier } => "name collision: more than one type is named "@
            + identifier,
    }
}

impl GenerateError {
    /// The error in words, with the name of the type that it was met in.
    pub fn message(&self) -> (text: String)
        ensures
            text@ == fault_message(self@),
    {
        match self {
            GenerateError::UnsupportedChoice { path } => {
                let mut text = "unsupported construct: choice in complex type ".to_owned();
                text.append(path.as_str());
                text
            },
            GenerateError::UnnamedType => {
                "unsupported construct: a type without a name that nothing owns".to_owned()
            },
            GenerateError::NameCollision { identifier } => {
                let mut text = "name collision: more than one type is named ".to_owned();
                text.append(identifier.as_str());
                text
            },
        }
    }
}

} // verus!
