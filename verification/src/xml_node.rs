//! The content tree: what one document node holds of the query's fields,
//! with the values it inherits.

use vstd::prelude::*;

verus! {

/// One field of a content tree.
///
/// `present` says that the document node itself defines the field. A leaf
/// holds the effective value, its own or an inherited one.
#[derive(Debug, PartialEq, Eq)]
pub struct XmlNode {
    pub name: String,
    pub present: bool,
    pub data: XmlNodeData,
}

/// What a field of a content tree holds.
#[derive(Debug, PartialEq, Eq)]
pub enum XmlNodeData {
    Branch(Vec<XmlNode>),
    Leaf(String),
    Absent,
}

/// The mathematical content of an [`XmlNode`].
pub struct XmlNodeView {
    pub name: Seq<char>,
    pub present: bool,
    pub data: XmlNodeDataView,
}

/// The mathematical content of an [`XmlNodeData`].
pub enum XmlNodeDataView {
    Branch(Seq<XmlNodeView>),
    Leaf(Seq<char>),
    Absent,
}

impl View for XmlNode {
    type V = XmlNodeView;

    open spec fn view(&self) -> XmlNodeView
        decreases self,
    {
        XmlNodeView {
            name: self.name@,
            present: self.present,
            data: match self.data {
                XmlNodeData::Branch(children) => XmlNodeDataView::Branch(
                    XmlNode::views_of(children@),
                ),
                XmlNodeData::Leaf(value) => XmlNodeDataView::Leaf(value@),
                XmlNodeData::Absent => XmlNodeDataView::Absent,
            },
        }
    }
}

impl XmlNode {
    /// The views of a run of fields, in order.
    pub open spec fn views_of(nodes: Seq<XmlNode>) -> Seq<XmlNodeView>
        decreases nodes,
    {
        if nodes.len() == 0 {
            Seq::empty()
        } else {
            XmlNode::views_of(nodes.drop_last()).push(nodes.last()@)
        }
    }

    /// `views_of` takes the view of each field.
    pub proof fn lemma_views_of(nodes: Seq<XmlNode>)
        ensures
            XmlNode::views_of(nodes) == crate::views::view_all(nodes),
        decreases nodes.len(),
    {
        if nodes.len() > 0 {
            XmlNode::lemma_views_of(nodes.drop_last());
            crate::views::lemma_view_all_push(nodes.drop_last(), nodes.last());
            assert(nodes.drop_last().push(nodes.last()) =~= nodes);
        } else {
            assert(XmlNode::views_of(nodes) =~= crate::views::view_all(nodes));
        }
    }
}

impl XmlNodeView {
    /// Whether the content holds a value anywhere: whether any leaf in it
    /// is not absent.
    pub open spec fn holds_value(self) -> bool
        decreases self,
    {
        match self.data {
            XmlNodeDataView::Branch(fields) => XmlNodeView::any_holds_value(fields),
            XmlNodeDataView::Leaf(_) => true,
            XmlNodeDataView::Absent => false,
        }
    }

    /// Whether any of `fields` holds a value.
    pub open spec fn any_holds_value(fields: Seq<XmlNodeView>) -> bool
        decreases fields,
    {
        if fields.len() == 0 {
            false
        } else {
            XmlNodeView::any_holds_value(fields.drop_last()) || fields.last().holds_value()
        }
    }

    /// The first of `children` that bears `name`.
    pub open spec fn first_named(children: Seq<XmlNodeView>, name: Seq<char>) -> Option<
        XmlNodeView,
    >
        decreases children.len(),
    {
        if children.len() == 0 {
            None
        } else if children[0].name == name {
            Some(children[0])
        } else {
            XmlNodeView::first_named(children.drop_first(), name)
        }
    }

    /// What a parent's content offers the field `name` below it: its first
    /// child of that name, where it is a branch.
    pub open spec fn offered(parent: Option<XmlNodeView>, name: Seq<char>) -> Option<XmlNodeView> {
        match parent {
            Some(p) => match p.data {
                XmlNodeDataView::Branch(children) => XmlNodeView::first_named(children, name),
                _ => None,
            },
            None => None,
        }
    }

    /// The value that a leaf takes over from its parent's content.
    pub open spec fn inherited_value(parent: Option<XmlNodeView>) -> XmlNodeDataView {
        match parent {
            Some(p) => match p.data {
                XmlNodeDataView::Leaf(value) => XmlNodeDataView::Leaf(value),
                _ => XmlNodeDataView::Absent,
            },
            None => XmlNodeDataView::Absent,
        }
    }
}

} // verus!
