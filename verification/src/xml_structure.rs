//! The query: the tree of named fields that a run tracks.

use vstd::prelude::*;

verus! {

/// A named field of the query.
#[derive(Debug, PartialEq, Eq)]
pub struct XmlTag {
    pub name: String,
    pub content: Content,
}

/// What a field of the query stands for: a scalar of interest, or further
/// named fields.
#[derive(Debug, PartialEq, Eq)]
pub enum Content {
    Branch(Vec<XmlTag>),
    Leaf,
}

/// The mathematical content of an [`XmlTag`].
pub struct XmlTagView {
    pub name: Seq<char>,
    pub content: ContentView,
}

/// The mathematical content of a [`Content`].
pub enum ContentView {
    Branch(Seq<XmlTagView>),
    Leaf,
}

impl View for XmlTag {
    type V = XmlTagView;

    open spec fn view(&self) -> XmlTagView
        decreases self,
    {
        XmlTagView {
            name: self.name@,
            content: match self.content {
                Content::Branch(children) => ContentView::Branch(XmlTag::views_of(children@)),
                Content::Leaf => ContentView::Leaf,
            },
        }
    }
}

impl XmlTag {
    /// The views of a run of fields, in order.
    pub open spec fn views_of(tags: Seq<XmlTag>) -> Seq<XmlTagView>
        decreases tags,
    {
        if tags.len() == 0 {
            Seq::empty()
        } else {
            XmlTag::views_of(tags.drop_last()).push(tags.last()@)
        }
    }

    /// `views_of` takes the view of each field.
    pub proof fn lemma_views_of(tags: Seq<XmlTag>)
        ensures
            XmlTag::views_of(tags) == crate::views::view_all(tags),
        decreases tags.len(),
    {
        if tags.len() > 0 {
            XmlTag::lemma_views_of(tags.drop_last());
            crate::views::lemma_view_all_push(tags.drop_last(), tags.last());
            assert(tags.drop_last().push(tags.last()) =~= tags);
        } else {
            assert(XmlTag::views_of(tags) =~= crate::views::view_all(tags));
        }
    }
}

} // verus!
