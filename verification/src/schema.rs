//! The schema tree: what a schema document holds once it has been read.
//!
//! Named top-level types are owned by the [`XsdSchema`]; an anonymous type is
//! owned by the element or attribute it is written inside, and goes by its
//! owner's name.

use vstd::prelude::*;

verus! {

/// A whole schema: its top-level elements and named types, each in document order.
#[derive(Debug)]
pub struct XsdSchema {
    pub elements: Vec<XsdElement>,
    pub complex_types: Vec<XsdComplexType>,
    pub simple_types: Vec<XsdSimpleType>,
}

/// An element declaration.
///
/// Its type is given in at most one of three ways: by reference
/// (`data_type`), or by an anonymous complex or simple type written inside
/// it. With none of them the element holds a string.
#[derive(Debug)]
pub struct XsdElement {
    pub name: String,
    pub data_type: Option<String>,
    pub complex_type: Option<XsdComplexType>,
    pub simple_type: Option<XsdSimpleType>,
    pub min_occurs: Option<i64>,
    pub max_occurs: Option<String>,
}

/// A complex type: attributes and at most one content model.
#[derive(Debug)]
pub struct XsdComplexType {
    pub name: Option<String>,
    pub sequence: Option<Sequence>,
    pub choice: Option<Choice>,
    pub all: Option<All>,
    pub simple_content: Option<SimpleContent>,
    pub attributes: Vec<XsdAttribute>,
}

/// An attribute declaration; its type is given as an element's is.
#[derive(Debug)]
pub struct XsdAttribute {
    pub name: String,
    pub data_type: Option<String>,
    pub use_: XsdUse,
    pub complex_type: Option<XsdComplexType>,
    pub simple_type: Option<XsdSimpleType>,
}

/// Whether an attribute may, must or must not be written.
#[derive(Debug, Clone, Copy, PartialEq, Eq, Structural)]
pub enum XsdUse {
    Optional,
    Prohibited,
    Required,
}

/// Child elements that come in the order given.
#[derive(Debug)]
pub struct Sequence {
    pub elements: Vec<XsdElement>,
    pub min_occurs: Option<i64>,
}

/// Child elements of which one is written. No Rust type is generated for it.
#[derive(Debug)]
pub struct Choice {
    pub elements: Vec<XsdElement>,
}

/// Child elements that come in any order.
#[derive(Debug)]
pub struct All {
    pub elements: Vec<XsdElement>,
    pub min_occurs: Option<i64>,
}

/// The content model of a type that holds text and attributes, and no child element.
#[derive(Debug)]
pub struct SimpleContent {
    pub extension: Extension,
}

/// The type of the text of a [`SimpleContent`], and the attributes beside it.
#[derive(Debug)]
pub struct Extension {
    pub base: String,
    pub attributes: Vec<XsdAttribute>,
}

/// A simple type: a base type, narrowed or not.
#[derive(Debug)]
pub struct XsdSimpleType {
    pub name: Option<String>,
    pub restriction: Option<Restriction>,
}

/// A base type and, where the values are listed, the list.
#[derive(Debug)]
pub struct Restriction {
    pub base: String,
    pub enumeration: Option<Vec<Enumeration>>,
}

/// One listed value, as it is written in a document.
#[derive(Debug)]
pub struct Enumeration {
    pub value: String,
}

/// 1 for a part that is there, 0 for one that is not.
pub open spec fn present<T>(part: Option<T>) -> nat {
    if part is Some {
        1
    } else {
        0
    }
}

impl XsdElement {
    /// The element's type is given in at most one way: by reference, by a
    /// complex type or by a simple type written inside it.
    pub open spec fn well_formed(&self) -> bool {
        present(self.data_type) + present(self.complex_type) + present(self.simple_type) <= 1
    }
}

impl XsdAttribute {
    /// The attribute's type is given in at most one way: by reference, by a
    /// complex type or by a simple type written inside it.
    pub open spec fn well_formed(&self) -> bool {
        present(self.data_type) + present(self.complex_type) + present(self.simple_type) <= 1
    }
}

impl XsdComplexType {
    /// The type has at most one content model.
    pub open spec fn well_formed(&self) -> bool {
        present(self.sequence) + present(self.choice) + present(self.all) + present(
            self.simple_content,
        ) <= 1
    }
}

} // verus!
