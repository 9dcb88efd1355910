//! The content extractor: builds, for one document node, the content tree
//! of the query's fields, threading the parent's content into what the node
//! does not define.

use vstd::prelude::*;
use crate::document::DocNode;
use crate::document::DocNodeView;
use crate::document::get_xpath;
use crate::error::Error;
use crate::error::ErrorView;
use crate::xml_node::XmlNode;
use crate::xml_node::XmlNodeData;
use crate::xml_node::XmlNodeDataView;
use crate::xml_node::XmlNodeView;
use crate::xml_structure::Content;
use crate::xml_structure::ContentView;
use crate::xml_structure::XmlTag;
use crate::xml_structure::XmlTagView;

verus! {

impl XmlTagView {
    /// The content of a field that the document node does not define: not
    /// present at any level, each leaf with the value that the parent's
    /// content holds at the same place.
    pub open spec fn created(self, parent: Option<XmlNodeView>) -> XmlNodeView
        decreases self,
    {
        match self.content {
            ContentView::Branch(fields) => XmlNodeView {
                name: self.name,
                present: false,
                data: XmlNodeDataView::Branch(XmlTagView::created_all(fields, parent)),
            },
            ContentView::Leaf => XmlNodeView {
                name: self.name,
                present: false,
                data: XmlNodeView::inherited_value(parent),
            },
        }
    }

    /// The created content of each of `fields` below a node whose parent's
    /// content is `parent`.
    pub open spec fn created_all(fields: Seq<XmlTagView>, parent: Option<XmlNodeView>) -> Seq<
        XmlNodeView,
    >
        decreases fields,
    {
        if fields.len() == 0 {
            Seq::empty()
        } else {
            XmlTagView::created_all(fields.drop_last(), parent).push(
                fields.last().created(XmlNodeView::offered(parent, fields.last().name)),
            )
        }
    }

    /// The content of this field where the node does not define it: the
    /// created content where that holds a value, and nothing where neither
    /// the node nor the parent has anything to say of the field.
    pub open spec fn undefined(self, parent: Option<XmlNodeView>) -> Option<XmlNodeView> {
        if self.created(parent).holds_value() {
            Some(self.created(parent))
        } else {
            None
        }
    }

    /// The content of the query below `node`, which stands at `address`.
    ///
    /// Where the node has no child of the query's name, the content is the
    /// created one if that holds a value, and nothing otherwise. Else it is
    /// what `extracted_field` gives.
    pub open spec fn extracted(
        self,
        node: DocNodeView,
        address: Seq<char>,
        parent: Option<XmlNodeView>,
    ) -> Result<Option<XmlNodeView>, ErrorView> {
        if node.named_children(self.name).len() == 0 {
            Ok(self.undefined(parent))
        } else {
            self.extracted_field(node, address, parent)
        }
    }

    /// The content of this field as found below `node`, which stands at
    /// `address`, for a field inside the query.
    ///
    /// More than one child of the field's name is a structural violation. No
    /// such child gives the created content. One such child gives, for a
    /// leaf, its text as a present value, or nothing where it has no text;
    /// for a branch, a present node over the content that its fields have
    /// below that child.
    pub open spec fn extracted_field(
        self,
        node: DocNodeView,
        address: Seq<char>,
        parent: Option<XmlNodeView>,
    ) -> Result<Option<XmlNodeView>, ErrorView>
        decreases self,
    {
        if node.ambiguous(self.name) {
            Err(ErrorView::StructuralViolation { name: self.name, address })
        } else {
            match node.child(self.name) {
                None => Ok(Some(self.created(parent))),
                Some(child) => match self.content {
                    ContentView::Leaf => match child.text {
                        Some(text) => Ok(
                            Some(
                                XmlNodeView {
                                    name: self.name,
                                    present: true,
                                    data: XmlNodeDataView::Leaf(text),
                                },
                            ),
                        ),
                        None => Ok(None),
                    },
                    ContentView::Branch(fields) => match XmlTagView::extracted_all(
                        fields,
                        child,
                        DocNodeView::only_child_address(address, self.name),
                        parent,
                    ) {
                        Ok(children) => Ok(
                            Some(
                                XmlNodeView {
                                    name: self.name,
                                    present: true,
                                    data: XmlNodeDataView::Branch(children),
                                },
                            ),
                        ),
                        Err(e) => Err(e),
                    },
                },
            }
        }
    }

    /// The content of each of `fields` below `node`, left to right, without
    /// those that give nothing; the first violation met ends it.
    pub open spec fn extracted_all(
        fields: Seq<XmlTagView>,
        node: DocNodeView,
        address: Seq<char>,
        parent: Option<XmlNodeView>,
    ) -> Result<Seq<XmlNodeView>, ErrorView>
        decreases fields,
    {
        if fields.len() == 0 {
            Ok(Seq::empty())
        } else {
            match XmlTagView::extracted_all(fields.drop_last(), node, address, parent) {
                Err(e) => Err(e),
                Ok(before) => match fields.last().extracted_field(
                    node,
                    address,
                    XmlNodeView::offered(parent, fields.last().name),
                ) {
                    Err(e) => Err(e),
                    Ok(None) => Ok(before),
                    Ok(Some(content)) => Ok(before.push(content)),
                },
            }
        }
    }

    /// The content of this field below the `Values` container of an
    /// instance. The container is mandatory.
    pub open spec fn extracted_from_values(
        self,
        node: DocNodeView,
        address: Seq<char>,
        parent: Option<XmlNodeView>,
    ) -> Result<Option<XmlNodeView>, ErrorView> {
        if node.ambiguous("Values"@) {
            Err(ErrorView::StructuralViolation { name: "Values"@, address })
        } else {
            match node.child("Values"@) {
                None => Err(ErrorView::MissingMandatoryContainer { name: "Values"@, address }),
                Some(values) => self.extracted(
                    values,
                    DocNodeView::only_child_address(address, "Values"@),
                    parent,
                ),
            }
        }
    }

    /// The content of this field below the `Properties` container of a
    /// template. Without the container the template defines nothing, and
    /// the content is what an undefined field has.
    pub open spec fn extracted_from_properties(
        self,
        node: DocNodeView,
        address: Seq<char>,
        parent: Option<XmlNodeView>,
    ) -> Result<Option<XmlNodeView>, ErrorView> {
        if node.ambiguous("Properties"@) {
            Err(ErrorView::StructuralViolation { name: "Properties"@, address })
        } else {
            match node.child("Properties"@) {
                None => Ok(self.undefined(parent)),
                Some(properties) => self.extracted(
                    properties,
                    DocNodeView::only_child_address(address, "Properties"@),
                    parent,
                ),
            }
        }
    }

    /// The violation of a template whose `Properties` container holds more
    /// than one child of this field's name, reported at the container.
    pub open spec fn doubled_in_properties(self, node: DocNodeView, address: Seq<char>) -> Option<
        ErrorView,
    > {
        match node.child("Properties"@) {
            Some(properties) => if properties.ambiguous(self.name) {
                Some(
                    ErrorView::StructuralViolation {
                        name: self.name,
                        address: DocNodeView::only_child_address(address, "Properties"@),
                    },
                )
            } else {
                None
            },
            None => None,
        }
    }

    /// Whether the `Properties` container of a template holds exactly one
    /// child of this field's name.
    pub open spec fn defined_in_properties(self, node: DocNodeView, address: Seq<char>) -> Result<
        bool,
        ErrorView,
    > {
        if node.ambiguous("Properties"@) {
            Err(ErrorView::StructuralViolation { name: "Properties"@, address })
        } else {
            match node.child("Properties"@) {
                None => Ok(false),
                Some(properties) => Ok(properties.named_children(self.name).len() == 1),
            }
        }
    }
}

/// A violation met among the first fields is the outcome for all of them.
pub proof fn lemma_extracted_all_error(
    fields: Seq<XmlTagView>,
    k: int,
    node: DocNodeView,
    address: Seq<char>,
    parent: Option<XmlNodeView>,
)
    requires
        0 <= k <= fields.len(),
        XmlTagView::extracted_all(fields.take(k), node, address, parent) is Err,
    ensures
        XmlTagView::extracted_all(fields, node, address, parent) == XmlTagView::extracted_all(
            fields.take(k),
            node,
            address,
            parent,
        ),
    decreases fields.len() - k,
{
    if k == fields.len() {
        assert(fields.take(k) =~= fields);
    } else {
        assert(fields.drop_last().take(k) =~= fields.take(k));
        lemma_extracted_all_error(fields.drop_last(), k, node, address, parent);
    }
}

/// Finds what a parent's content offers the field `name`.
pub fn offered_child<'a>(parent_content: Option<&'a XmlNode>, name: &str) -> (r: Option<
    &'a XmlNode,
>)
    ensures
        crate::views::view_opt(r) == XmlNodeView::offered(
            crate::views::view_opt(parent_content),
            name@,
        ),
{
    let parent = match parent_content {
        Some(parent) => parent,
        None => {
            return None;
        },
    };
    let children = match &parent.data {
        XmlNodeData::Branch(children) => children,
        _ => {
            return None;
        },
    };
    let target = String::from_str(name);
    let ghost all = XmlNode::views_of(children@);
    proof {
        XmlNode::lemma_views_of(children@);
        assert(all.skip(0) =~= all);
    }
    let mut i: usize = 0;
    while i < children.len()
        invariant
            i <= children.len(),
            target@ == name@,
            all == crate::views::view_all(children@),
            crate::views::view_opt(parent_content) matches Some(p) && p.data
                == XmlNodeDataView::Branch(all),
            XmlNodeView::first_named(all, name@) == XmlNodeView::first_named(
                all.skip(i as int),
                name@,
            ),
        decreases children.len() - i,
    {
        let child = &children[i];
        proof {
            assert(all.skip(i as int).len() > 0);
            assert(all.skip(i as int)[0] == child@);
            assert(all.skip(i as int).drop_first() =~= all.skip(i + 1));
        }
        if child.name == target {
            return Some(child);
        }
        i = i + 1;
    }
    proof {
        assert(all.skip(i as int).len() == 0);
    }
    None
}

/// Builds the content of a field that the document node does not define.
///
/// Nothing in the result is present. Each leaf holds the value that the
/// parent's content holds at the same place, and is absent where the parent
/// holds none.
pub fn create_content(query: &XmlTag, parent_content: Option<&XmlNode>) -> (r: Option<XmlNode>)
    ensures
        r matches Some(content) && content@ == query@.created(
            crate::views::view_opt(parent_content),
        ),
    decreases query,
{
    let ghost parent = crate::views::view_opt(parent_content);
    match &query.content {
        Content::Branch(query_children) => {
            let ghost fields = XmlTag::views_of(query_children@);
            proof {
                XmlTag::lemma_views_of(query_children@);
                assert(fields.take(0) =~= Seq::<XmlTagView>::empty());
            }
            let mut created_children: Vec<XmlNode> = Vec::new();
            let mut i: usize = 0;
            while i < query_children.len()
                invariant
                    i <= query_children.len(),
                    query.content == Content::Branch(*query_children),
                    fields == crate::views::view_all(query_children@),
                    parent == crate::views::view_opt(parent_content),
                    XmlNode::views_of(created_children@) == XmlTagView::created_all(
                        fields.take(i as int),
                        parent,
                    ),
                decreases query_children.len() - i,
            {
                let query_child = &query_children[i];
                let parent_content_child = offered_child(
                    parent_content,
                    query_child.name.as_str(),
                );
                let created = match create_content(query_child, parent_content_child) {
                    Some(created) => created,
                    None => {
                        return None;
                    },
                };
                proof {
                    assert(fields.take(i + 1).drop_last() =~= fields.take(i as int));
                    assert(fields.take(i + 1).last() == query_child@);
                    assert(created_children@.push(created).drop_last() =~= created_children@);
                }
                created_children.push(created);
                i = i + 1;
            }
            proof {
                assert(fields.take(i as int) =~= fields);
            }
            Some(
                XmlNode {
                    name: query.name.clone(),
                    present: false,
                    data: XmlNodeData::Branch(created_children),
                },
            )
        },
        Content::Leaf => {
            let data = match parent_content {
                Some(parent) => match &parent.data {
                    XmlNodeData::Leaf(value) => XmlNodeData::Leaf(value.clone()),
                    _ => XmlNodeData::Absent,
                },
                None => XmlNodeData::Absent,
            };
            Some(XmlNode { name: query.name.clone(), present: false, data })
        },
    }
}

/// Whether the content holds a value anywhere: whether any leaf in it is
/// not absent.
pub fn holds_value(content: &XmlNode) -> (r: bool)
    ensures
        r == content@.holds_value(),
    decreases content,
{
    match &content.data {
        XmlNodeData::Branch(children) => {
            let ghost fields = XmlNode::views_of(children@);
            proof {
                XmlNode::lemma_views_of(children@);
                assert(fields.take(0) =~= Seq::<XmlNodeView>::empty());
            }
            let mut found = false;
            let mut i: usize = 0;
            while i < children.len()
                invariant
                    i <= children.len(),
                    content.data == XmlNodeData::Branch(*children),
                    content@.data == XmlNodeDataView::Branch(fields),
                    fields == crate::views::view_all(children@),
                    found == XmlNodeView::any_holds_value(fields.take(i as int)),
                decreases children.len() - i,
            {
                proof {
                    assert(fields.take(i + 1).drop_last() =~= fields.take(i as int));
                    assert(fields.take(i + 1).last() == children[i as int]@);
                }
                let held = holds_value(&children[i]);
                found = found || held;
                i = i + 1;
            }
            proof {
                assert(fields.take(i as int) =~= fields);
            }
            found
        },
        XmlNodeData::Leaf(_) => true,
        XmlNodeData::Absent => false,
    }
}

/// Builds the content of a query that the document node does not define:
/// the created content where that holds a value, else nothing.
pub fn create_undefined(query: &XmlTag, parent_content: Option<&XmlNode>) -> (r: Option<XmlNode>)
    ensures
        crate::views::view_opt(r) == query@.undefined(crate::views::view_opt(parent_content)),
{
    match create_content(query, parent_content) {
        Some(content) => if holds_value(&content) {
            Some(content)
        } else {
            None
        },
        None => None,
    }
}

/// Extracts the content of the query below `node`, which stands at
/// `address`, against the parent's content.
///
/// A node without a child of the query's name gives the parent's values as
/// content that is not present, and nothing where there are no such values.
pub fn extract_content(
    node: &DocNode,
    address: &str,
    query: &XmlTag,
    parent_content: Option<&XmlNode>,
) -> (r: Result<Option<XmlNode>, Error>)
    ensures
        crate::views::view_outcome(r) == query@.extracted(
            node@,
            address@,
            crate::views::view_opt(parent_content),
        ),
{
    match node.find_child(query.name.as_str(), address) {
        Ok(None) => Ok(create_undefined(query, parent_content)),
        _ => extract_field(node, address, query, parent_content),
    }
}

/// Extracts the content of one field of the query below `node`, which
/// stands at `address`, against what the parent's content offers the field.
///
/// A node without a child of the field's name gives the created content.
pub fn extract_field(
    node: &DocNode,
    address: &str,
    query: &XmlTag,
    parent_content: Option<&XmlNode>,
) -> (r: Result<Option<XmlNode>, Error>)
    ensures
        crate::views::view_outcome(r) == query@.extracted_field(
            node@,
            address@,
            crate::views::view_opt(parent_content),
        ),
    decreases query,
{
    let ghost parent = crate::views::view_opt(parent_content);
    let child_node = match node.find_child(query.name.as_str(), address) {
        Err(e) => {
            return Err(e);
        },
        Ok(None) => {
            return Ok(create_content(query, parent_content));
        },
        Ok(Some(child_node)) => child_node,
    };
    match &query.content {
        Content::Branch(query_children) => {
            let child_address = get_xpath(address, query.name.as_str(), 1);
            let ghost fields = XmlTag::views_of(query_children@);
            proof {
                XmlTag::lemma_views_of(query_children@);
                assert(fields.take(0) =~= Seq::<XmlTagView>::empty());
            }
            let mut created_children: Vec<XmlNode> = Vec::new();
            let mut i: usize = 0;
            while i < query_children.len()
                invariant
                    i <= query_children.len(),
                    query.content == Content::Branch(*query_children),
                    query@.content == ContentView::Branch(fields),
                    node@.child(query@.name) == Some(child_node@),
                    child_address@ == DocNodeView::only_child_address(address@, query@.name),
                    fields == crate::views::view_all(query_children@),
                    parent == crate::views::view_opt(parent_content),
                    XmlTagView::extracted_all(
                        fields.take(i as int),
                        child_node@,
                        child_address@,
                        parent,
                    ) == Ok::<Seq<XmlNodeView>, ErrorView>(XmlNode::views_of(created_children@)),
                decreases query_children.len() - i,
            {
                let query_child = &query_children[i];
                let parent_content_child = offered_child(
                    parent_content,
                    query_child.name.as_str(),
                );
                proof {
                    assert(fields.take(i + 1).drop_last() =~= fields.take(i as int));
                    assert(fields.take(i + 1).last() == query_child@);
                }
                match extract_field(
                    child_node,
                    child_address.as_str(),
                    query_child,
                    parent_content_child,
                ) {
                    Err(e) => {
                        proof {
                            assert(XmlTagView::extracted_all(
                                fields.take(i + 1),
                                child_node@,
                                child_address@,
                                parent,
                            ) == Err::<Seq<XmlNodeView>, ErrorView>(e@));
                            lemma_extracted_all_error(
                                fields,
                                i + 1,
                                child_node@,
                                child_address@,
                                parent,
                            );
                        }
                        return Err(e);
                    },
                    Ok(None) => {},
                    Ok(Some(content)) => {
                        proof {
                            assert(created_children@.push(content).drop_last()
                                =~= created_children@);
                        }
                        created_children.push(content);
                    },
                }
                i = i + 1;
            }
            proof {
                assert(fields.take(i as int) =~= fields);
            }
            Ok(
                Some(
                    XmlNode {
                        name: query.name.clone(),
                        present: true,
                        data: XmlNodeData::Branch(created_children),
                    },
                ),
            )
        },
        Content::Leaf => {
            match &child_node.text {
                Some(text) => Ok(
                    Some(
                        XmlNode {
                            name: query.name.clone(),
                            present: true,
                            data: XmlNodeData::Leaf(text.clone()),
                        },
                    ),
                ),
                None => Ok(None),
            }
        },
    }
}

/// Extracts the content of the query below the `Values` container of an
/// instance at `address`. A missing container is an error.
pub fn extract_content_from_values(
    node: &DocNode,
    address: &str,
    query: &XmlTag,
    parent_content: Option<&XmlNode>,
) -> (r: Result<Option<XmlNode>, Error>)
    ensures
        crate::views::view_outcome(r) == query@.extracted_from_values(
            node@,
            address@,
            crate::views::view_opt(parent_content),
        ),
{
    match node.find_child("Values", address)? {
        None => Err(
            Error::MissingMandatoryContainer {
                name: String::from_str("Values"),
                address: String::from_str(address),
            },
        ),
        Some(values_node) => {
            let values_address = get_xpath(address, "Values", 1);
            extract_content(values_node, values_address.as_str(), query, parent_content)
        },
    }
}

/// Extracts the content of the query below the `Properties` container of a
/// template at `address`. Without the container the content is what the
/// parent's values give, and nothing where there are none.
pub fn extract_content_from_properties(
    node: &DocNode,
    address: &str,
    query: &XmlTag,
    parent_content: Option<&XmlNode>,
) -> (r: Result<Option<XmlNode>, Error>)
    ensures
        crate::views::view_outcome(r) == query@.extracted_from_properties(
            node@,
            address@,
            crate::views::view_opt(parent_content),
        ),
{
    match node.find_child("Properties", address)? {
        None => Ok(create_undefined(query, parent_content)),
        Some(properties_node) => {
            let properties_address = get_xpath(address, "Properties", 1);
            extract_content(properties_node, properties_address.as_str(), query, parent_content)
        },
    }
}

/// Whether `node` has exactly one child of the query's name.
pub fn has_direct_child(node: &DocNode, query: &XmlTag) -> (r: bool)
    ensures
        r == (node@.named_children(query@.name).len() == 1),
{
    node.has_child(query.name.as_str())
}

/// Whether the `Properties` container of the template `node` has exactly one
/// child of the query's name; `false` without the container.
pub fn has_properties_child(node: &DocNode, address: &str, query: &XmlTag) -> (r: Result<
    bool,
    Error,
>)
    ensures
        match r {
            Ok(b) => query@.defined_in_properties(node@, address@) == Ok::<bool, ErrorView>(b),
            Err(e) => query@.defined_in_properties(node@, address@) == Err::<bool, ErrorView>(e@),
        },
{
    match node.find_child("Properties", address)? {
        None => Ok(false),
        Some(properties_node) => Ok(has_direct_child(properties_node, query)),
    }
}

} // verus!
