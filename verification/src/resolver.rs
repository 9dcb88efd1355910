//! The identifier resolver: the identity of a document node and the key of
//! its parent.

use vstd::prelude::*;
use crate::document::DocNode;
use crate::document::DocNodeView;
use crate::error::Error;
use crate::error::ErrorView;
use crate::identifier::Identifier;
use crate::identifier::IdentifierView;
use crate::identifier::Kind;
use crate::identifier::ParentIdentifier;
use crate::identifier::ParentIdentifierView;

verus! {

/// The text of the child `name` of a node that names its parent by it.
pub enum Link {
    /// The node has no such child.
    Missing,
    /// The node has one such child, with this text.
    Text(Seq<char>),
}

impl DocNodeView {
    /// The text of the one child `name`, for a node at `address`. More than
    /// one such child is a structural violation; one without text is an
    /// error too.
    pub open spec fn link(self, name: Seq<char>, address: Seq<char>) -> Result<Link, ErrorView> {
        if self.ambiguous(name) {
            Err(ErrorView::StructuralViolation { name, address })
        } else {
            match self.child(name) {
                None => Ok(Link::Missing),
                Some(child) => match child.text {
                    Some(text) => Ok(Link::Text(text)),
                    None => Err(ErrorView::MissingText { name, address }),
                },
            }
        }
    }

    /// The identifier of a template: its file and the text of its `Name`
    /// child. A template without that child has none.
    pub open spec fn template_identifier(self, path: Seq<char>, address: Seq<char>) -> Result<
        Option<IdentifierView>,
        ErrorView,
    > {
        match self.link("Name"@, address) {
            Err(e) => Err(e),
            Ok(Link::Missing) => Ok(None),
            Ok(Link::Text(name)) => Ok(
                Some(IdentifierView { file_path: path, kind: Kind::Name, value: name }),
            ),
        }
    }

    /// The global id that an instance declares: the text of `GUID` below
    /// `Standard` below `Values`, each the one child of its name.
    pub open spec fn declared_guid(self, address: Seq<char>) -> Result<Option<Seq<char>>, ErrorView> {
        if self.ambiguous("Values"@) {
            Err(ErrorView::StructuralViolation { name: "Values"@, address })
        } else {
            match self.child("Values"@) {
                None => Ok(None),
                Some(values) => if values.ambiguous("Standard"@) {
                    Err(ErrorView::StructuralViolation { name: "Standard"@, address })
                } else {
                    match values.child("Standard"@) {
                        None => Ok(None),
                        Some(standard) => if standard.ambiguous("GUID"@) {
                            Err(ErrorView::StructuralViolation { name: "GUID"@, address })
                        } else {
                            match standard.child("GUID"@) {
                                None => Ok(None),
                                Some(guid) => Ok(guid.text),
                            }
                        },
                    }
                },
            }
        }
    }

    /// The identifier of an instance: its file and its declared global id,
    /// or its address where it declares none.
    pub open spec fn asset_identifier(self, path: Seq<char>, address: Seq<char>) -> Result<
        IdentifierView,
        ErrorView,
    > {
        match self.declared_guid(address) {
            Err(e) => Err(e),
            Ok(Some(guid)) => Ok(IdentifierView { file_path: path, kind: Kind::GUID, value: guid }),
            Ok(None) => Ok(IdentifierView { file_path: path, kind: Kind::XPath, value: address }),
        }
    }

    /// The key of the parent of an instance: the template it names, else the
    /// base asset it names, else the scenario base asset it names, else none.
    pub open spec fn asset_parent(self, address: Seq<char>) -> Result<
        ParentIdentifierView,
        ErrorView,
    > {
        match self.link("Template"@, address) {
            Err(e) => Err(e),
            Ok(Link::Text(name)) => Ok(ParentIdentifierView::Template(name)),
            Ok(Link::Missing) => match self.link("BaseAssetGUID"@, address) {
                Err(e) => Err(e),
                Ok(Link::Text(guid)) => Ok(ParentIdentifierView::GUID(guid)),
                Ok(Link::Missing) => match self.link("ScenarioBaseAssetGUID"@, address) {
                    Err(e) => Err(e),
                    Ok(Link::Text(guid)) => Ok(ParentIdentifierView::GUID(guid)),
                    Ok(Link::Missing) => Ok(ParentIdentifierView::NoParent),
                },
            },
        }
    }
}

/// Reads the text of the one child `name` of `node`.
fn read_link(node: &DocNode, name: &str, address: &str) -> (r: Result<Option<String>, Error>)
    ensures
        match r {
            Ok(Some(text)) => node@.link(name@, address@) == Ok::<Link, ErrorView>(
                Link::Text(text@),
            ),
            Ok(None) => node@.link(name@, address@) == Ok::<Link, ErrorView>(Link::Missing),
            Err(e) => node@.link(name@, address@) == Err::<Link, ErrorView>(e@),
        },
{
    match node.find_child(name, address)? {
        None => Ok(None),
        Some(child) => match &child.text {
            Some(text) => Ok(Some(text.clone())),
            None => Err(
                Error::MissingText {
                    name: String::from_str(name),
                    address: String::from_str(address),
                },
            ),
        },
    }
}

/// The identifier of a defaults node: its file and its address.
pub fn create_default_values_identifier(path: &str, address: &str) -> (r: Identifier)
    ensures
        r@ == (IdentifierView { file_path: path@, kind: Kind::XPath, value: address@ }),
{
    Identifier {
        file_path: String::from_str(path),
        kind: Kind::XPath,
        value: String::from_str(address),
    }
}

/// The identifier of the template `node` at `address` in the file `path`;
/// `None` for a template without a name.
pub fn create_template_identifier(path: &str, node: &DocNode, address: &str) -> (r: Result<
    Option<Identifier>,
    Error,
>)
    ensures
        crate::views::view_outcome(r) == node@.template_identifier(path@, address@),
{
    match read_link(node, "Name", address)? {
        None => Ok(None),
        Some(name_value) => Ok(
            Some(Identifier { file_path: String::from_str(path), kind: Kind::Name, value: name_value }),
        ),
    }
}

/// Reads the global id that the instance `node` declares.
fn read_guid(node: &DocNode, address: &str) -> (r: Result<Option<String>, Error>)
    ensures
        match r {
            Ok(Some(guid)) => node@.declared_guid(address@) == Ok::<Option<Seq<char>>, ErrorView>(
                Some(guid@),
            ),
            Ok(None) => node@.declared_guid(address@) == Ok::<Option<Seq<char>>, ErrorView>(None),
            Err(e) => node@.declared_guid(address@) == Err::<Option<Seq<char>>, ErrorView>(e@),
        },
{
    let values_node = match node.find_child("Values", address)? {
        Some(values_node) => values_node,
        None => {
            return Ok(None);
        },
    };
    let standard_node = match values_node.find_child("Standard", address)? {
        Some(standard_node) => standard_node,
        None => {
            return Ok(None);
        },
    };
    let guid_node = match standard_node.find_child("GUID", address)? {
        Some(guid_node) => guid_node,
        None => {
            return Ok(None);
        },
    };
    match &guid_node.text {
        Some(guid_value) => Ok(Some(guid_value.clone())),
        None => Ok(None),
    }
}

/// The identifier of the instance `node` at `address` in the file `path`.
pub fn create_asset_identifier(path: &str, node: &DocNode, address: &str) -> (r: Result<
    Identifier,
    Error,
>)
    ensures
        crate::views::view_result(r) == node@.asset_identifier(path@, address@),
{
    match read_guid(node, address)? {
        Some(guid_value) => Ok(
            Identifier { file_path: String::from_str(path), kind: Kind::GUID, value: guid_value },
        ),
        None => Ok(
            Identifier {
                file_path: String::from_str(path),
                kind: Kind::XPath,
                value: String::from_str(address),
            },
        ),
    }
}

/// The key of the parent of the instance `node` at `address`.
pub fn create_asset_parent_identifier(node: &DocNode, address: &str) -> (r: Result<
    ParentIdentifier,
    Error,
>)
    ensures
        crate::views::view_result(r) == node@.asset_parent(address@),
{
    if let Some(template_name) = read_link(node, "Template", address)? {
        return Ok(ParentIdentifier::Template(template_name));
    }
    if let Some(base_asset_guid) = read_link(node, "BaseAssetGUID", address)? {
        return Ok(ParentIdentifier::GUID(base_asset_guid));
    }
    if let Some(scenario_base_asset_guid) = read_link(node, "ScenarioBaseAssetGUID", address)? {
        return Ok(ParentIdentifier::GUID(scenario_base_asset_guid));
    }
    Ok(ParentIdentifier::NoParent)
}

/// Whether `value` is one of `list`.
pub fn contains(list: &Vec<String>, value: &str) -> (r: bool)
    ensures
        r == crate::views::view_all(list@).contains(value@),
{
    let target = String::from_str(value);
    let mut i: usize = 0;
    while i < list.len()
        invariant
            i <= list.len(),
            target@ == value@,
            forall|j: int| 0 <= j < i ==> list@[j]@ != value@,
        decreases list.len() - i,
    {
        if list[i] == target {
            assert(crate::views::view_all(list@)[i as int] == value@);
            return true;
        }
        i = i + 1;
    }
    assert forall|j: int| 0 <= j < crate::views::view_all(list@).len() implies crate::views::view_all(
        list@,
    )[j] != value@ by {}
    false
}

} // verus!
