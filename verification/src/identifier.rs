//! Identifiers of document nodes and the keys under which a node is found
//! as a parent.

use vstd::prelude::*;

verus! {

/// What the value of an identifier is.
#[derive(Clone, Copy, Debug, PartialEq, Eq, Structural)]
pub enum Kind {
    /// The structural address of the node in its document.
    XPath,
    /// The declared name of a template.
    Name,
    /// The declared global id of an instance.
    GUID,
}

/// The kind of document that a node comes from.
#[derive(Clone, Copy, Debug, PartialEq, Eq, Structural)]
pub enum NodeType {
    DefaultValues,
    Template,
    Asset,
}

/// The identity of a node: its source file, and a value of some kind.
#[derive(Clone, Debug, PartialEq, Eq)]
pub struct Identifier {
    pub file_path: String,
    pub kind: Kind,
    pub value: String,
}

/// The mathematical content of an [`Identifier`].
pub struct IdentifierView {
    pub file_path: Seq<char>,
    pub kind: Kind,
    pub value: Seq<char>,
}

impl View for Identifier {
    type V = IdentifierView;

    open spec fn view(&self) -> IdentifierView {
        IdentifierView { file_path: self.file_path@, kind: self.kind, value: self.value@ }
    }
}

/// The key by which a node names its parent.
#[derive(Clone, Debug, PartialEq, Eq)]
pub enum ParentIdentifier {
    NoParent,
    DefaultValues,
    Template(String),
    GUID(String),
}

/// The mathematical content of a [`ParentIdentifier`].
pub enum ParentIdentifierView {
    NoParent,
    DefaultValues,
    Template(Seq<char>),
    GUID(Seq<char>),
}

impl View for ParentIdentifier {
    type V = ParentIdentifierView;

    open spec fn view(&self) -> ParentIdentifierView {
        match self {
            ParentIdentifier::NoParent => ParentIdentifierView::NoParent,
            ParentIdentifier::DefaultValues => ParentIdentifierView::DefaultValues,
            ParentIdentifier::Template(name) => ParentIdentifierView::Template(name@),
            ParentIdentifier::GUID(id) => ParentIdentifierView::GUID(id@),
        }
    }
}

impl Identifier {
    /// Whether two identifiers agree in file, kind and value.
    pub fn same(&self, other: &Identifier) -> (r: bool)
        ensures
            r == (self@ == other@),
    {
        let kinds = match (self.kind, other.kind) {
            (Kind::XPath, Kind::XPath) => true,
            (Kind::Name, Kind::Name) => true,
            (Kind::GUID, Kind::GUID) => true,
            _ => false,
        };
        kinds && self.file_path == other.file_path && self.value == other.value
    }
}

impl ParentIdentifier {
    /// Whether two keys are the same key.
    pub fn same(&self, other: &ParentIdentifier) -> (r: bool)
        ensures
            r == (self@ == other@),
    {
        match (self, other) {
            (ParentIdentifier::NoParent, ParentIdentifier::NoParent) => true,
            (ParentIdentifier::DefaultValues, ParentIdentifier::DefaultValues) => true,
            (ParentIdentifier::Template(a), ParentIdentifier::Template(b)) => *a == *b,
            (ParentIdentifier::GUID(a), ParentIdentifier::GUID(b)) => *a == *b,
            _ => false,
        }
    }
}

} // verus!
