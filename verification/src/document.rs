//! Parsed documents as plain trees, and the lookups that the resolver and
//! the extractor make in them.

use vstd::prelude::*;
use crate::error::Error;
use crate::error::ErrorView;
use crate::text::concat3;
use crate::text::to_decimal;

verus! {

/// One node of a parsed document.
///
/// `name` is the tag name and is empty for a node that is no element (the
/// document root, text, comments). `text` is, for an element, the text of
/// its first child where that child is text, and for a text or comment node
/// its own text. `children` are all child nodes in document order.
#[derive(Debug, PartialEq, Eq)]
pub struct DocNode {
    pub name: String,
    pub text: Option<String>,
    pub children: Vec<DocNode>,
}

/// The mathematical content of a [`DocNode`].
pub struct DocNodeView {
    pub name: Seq<char>,
    pub text: Option<Seq<char>>,
    pub children: Seq<DocNodeView>,
}

impl View for DocNode {
    type V = DocNodeView;

    open spec fn view(&self) -> DocNodeView
        decreases self,
    {
        DocNodeView {
            name: self.name@,
            text: match self.text {
                Some(t) => Some(t@),
                None => None,
            },
            children: DocNode::views_of(self.children@),
        }
    }
}

impl DocNode {
    /// The views of a run of nodes, in order.
    pub open spec fn views_of(nodes: Seq<DocNode>) -> Seq<DocNodeView>
        decreases nodes,
    {
        if nodes.len() == 0 {
            Seq::empty()
        } else {
            DocNode::views_of(nodes.drop_last()).push(nodes.last()@)
        }
    }

    /// `views_of` takes the view of each node.
    pub proof fn lemma_views_of(nodes: Seq<DocNode>)
        ensures
            DocNode::views_of(nodes) == crate::views::view_all(nodes),
        decreases nodes.len(),
    {
        if nodes.len() > 0 {
            DocNode::lemma_views_of(nodes.drop_last());
            crate::views::lemma_view_all_push(nodes.drop_last(), nodes.last());
            assert(nodes.drop_last().push(nodes.last()) =~= nodes);
        } else {
            assert(DocNode::views_of(nodes) =~= crate::views::view_all(nodes));
        }
    }
}

/// A node together with the path of its document and its structural
/// address in it.
pub struct Located<'a> {
    pub file_path: String,
    pub address: String,
    pub node: &'a DocNode,
}

/// The mathematical content of a [`Located`].
pub struct LocatedView {
    pub file_path: Seq<char>,
    pub address: Seq<char>,
    pub node: DocNodeView,
}

impl<'a> View for Located<'a> {
    type V = LocatedView;

    open spec fn view(&self) -> LocatedView {
        LocatedView { file_path: self.file_path@, address: self.address@, node: self.node@ }
    }
}

/// A parsed document with the path by which its patches are filed.
#[derive(Debug, PartialEq, Eq)]
pub struct SourceDocument {
    pub path: String,
    pub root: DocNode,
}

/// The mathematical content of a [`SourceDocument`].
pub struct SourceDocumentView {
    pub path: Seq<char>,
    pub root: DocNodeView,
}

impl View for SourceDocument {
    type V = SourceDocumentView;

    open spec fn view(&self) -> SourceDocumentView {
        SourceDocumentView { path: self.path@, root: self.root@ }
    }
}

/// The error with which `at_most_one` of itertools reports a second item.
#[verifier::external_type_specification]
#[verifier::external_body]
#[verifier::reject_recursive_types(I)]
pub struct ExExactlyOneError<I: Iterator>(itertools::structs::ExactlyOneError<I>);

/// Calls `itertools::Itertools::at_most_one` on the items in their order.
/// That function takes up to two items from the iterator: with none it
/// returns `Ok(None)`, with exactly one `Ok(Some(..))` of it, and with a
/// second one an error.
#[verifier::external_body]
fn at_most_one<T>(items: Vec<T>) -> (r: Result<
    Option<T>,
    itertools::structs::ExactlyOneError<std::vec::IntoIter<T>>,
>)
    ensures
        r is Ok <==> items@.len() <= 1,
        r matches Ok(found) ==> found == (if items@.len() == 1 {
            Some(items@[0])
        } else {
            None
        }),
{
    itertools::Itertools::at_most_one(items.into_iter())
}

/// The nodes among `children` that bear `name`, in order.
pub open spec fn named(children: Seq<DocNodeView>, name: Seq<char>) -> Seq<DocNodeView>
    decreases children.len(),
{
    if children.len() == 0 {
        Seq::empty()
    } else {
        let rest = named(children.drop_last(), name);
        if children.last().name == name {
            rest.push(children.last())
        } else {
            rest
        }
    }
}

/// The address of a child: the parent's address, a slash, the child's name
/// and, in square brackets, its rank among the siblings of that name.
pub open spec fn child_address(address: Seq<char>, name: Seq<char>, rank: nat) -> Seq<char> {
    address + "/"@ + name + "["@ + crate::text::decimal(rank) + "]"@
}

/// The nodes named `name` in the subtree of `node`, `node` included, each
/// with its address, in document order.
pub open spec fn descendants_named(
    node: DocNodeView,
    file_path: Seq<char>,
    address: Seq<char>,
    name: Seq<char>,
) -> Seq<LocatedView>
    decreases node, 0nat,
{
    let own = if node.name == name {
        seq![LocatedView { file_path, address, node }]
    } else {
        Seq::empty()
    };
    own + descendants_below(node.children, node.children.len(), file_path, address, name)
}

/// The nodes named `name` in the subtrees of the first `upto` of `children`,
/// which are the children of the node at `address`.
pub open spec fn descendants_below(
    children: Seq<DocNodeView>,
    upto: nat,
    file_path: Seq<char>,
    address: Seq<char>,
    name: Seq<char>,
) -> Seq<LocatedView>
    decreases children, upto,
{
    if upto == 0 || upto > children.len() {
        Seq::empty()
    } else {
        let i = (upto - 1) as int;
        descendants_below(children, (upto - 1) as nat, file_path, address, name)
            + descendants_named(
            children[i],
            file_path,
            child_address(address, children[i].name, sibling_rank(children, i)),
            name,
        )
    }
}

/// The rank of child `i` among the children of its name that come no later,
/// counted from one.
pub open spec fn sibling_rank(children: Seq<DocNodeView>, i: int) -> nat {
    named(children.take(i), children[i].name).len() + 1
}

impl DocNodeView {
    /// The children that bear `name`, in order.
    pub open spec fn named_children(self, name: Seq<char>) -> Seq<DocNodeView> {
        named(self.children, name)
    }

    /// The one child that bears `name`, where there is exactly one.
    pub open spec fn child(self, name: Seq<char>) -> Option<DocNodeView> {
        if self.named_children(name).len() == 1 {
            Some(self.named_children(name)[0])
        } else {
            None
        }
    }

    /// Whether more than one child bears `name`.
    pub open spec fn ambiguous(self, name: Seq<char>) -> bool {
        self.named_children(name).len() > 1
    }

    /// The address of the one child named `name` of a node at `address`.
    pub open spec fn only_child_address(address: Seq<char>, name: Seq<char>) -> Seq<char> {
        child_address(address, name, 1)
    }

    /// The nodes named `name` in this subtree, each with its address, in
    /// document order, for a node at `address` in the document `file_path`.
    pub open spec fn located(self, file_path: Seq<char>, address: Seq<char>, name: Seq<char>) -> Seq<
        LocatedView,
    > {
        descendants_named(self, file_path, address, name)
    }
}

impl SourceDocumentView {
    /// The nodes named `name` of the document, in document order. The root
    /// has the empty address.
    pub open spec fn located(self, name: Seq<char>) -> Seq<LocatedView> {
        self.root.located(self.path, Seq::empty(), name)
    }

    /// The nodes named `name` of each of `documents`, one document after
    /// the other.
    pub open spec fn located_in(documents: Seq<SourceDocumentView>, name: Seq<char>) -> Seq<
        LocatedView,
    >
        decreases documents.len(),
    {
        if documents.len() == 0 {
            Seq::empty()
        } else {
            SourceDocumentView::located_in(documents.drop_last(), name) + documents.last().located(
                name,
            )
        }
    }
}

/// Builds the address of a child from its parent's address, its name and its
/// rank among the siblings of that name.
pub fn get_xpath(address: &str, name: &str, rank: usize) -> (r: String)
    ensures
        r@ == child_address(address@, name@, rank as nat),
{
    let head = concat3(address, "/", name);
    let number = to_decimal(rank);
    let tail = concat3("[", number.as_str(), "]");
    let r = head.concat(tail.as_str());
    assert(r@ =~= child_address(address@, name@, rank as nat));
    r
}

impl DocNode {
    /// The views of the children are the children of the view.
    pub proof fn lemma_children_view(&self)
        ensures
            self@.children == crate::views::view_all(self.children@),
            self@.children.len() == self.children.len(),
    {
        DocNode::lemma_views_of(self.children@);
    }

    /// Looks for the child named `name`. More than one such child is a
    /// structural violation, reported at `address`.
    pub fn find_child<'a>(&'a self, name: &str, address: &str) -> (r: Result<
        Option<&'a DocNode>,
        Error,
    >)
        ensures
            match r {
                Ok(Some(c)) => self@.child(name@) == Some(c@),
                Ok(None) => self@.named_children(name@).len() == 0,
                Err(e) => self@.ambiguous(name@) && e@ == (ErrorView::StructuralViolation {
                    name: name@,
                    address: address@,
                }),
            },
    {
        let target = String::from_str(name);
        let mut matches: Vec<&'a DocNode> = Vec::new();
        let mut i: usize = 0;
        proof {
            self.lemma_children_view();
            assert(self@.children.take(0) =~= Seq::<DocNodeView>::empty());
            assert(crate::views::view_all(matches@) =~= Seq::<DocNodeView>::empty());
        }
        while i < self.children.len()
            invariant
                i <= self.children.len(),
                target@ == name@,
                self@.children == crate::views::view_all(self.children@),
                crate::views::view_all(matches@) == named(self@.children.take(i as int), name@),
            decreases self.children.len() - i,
        {
            let child = &self.children[i];
            proof {
                assert(self@.children.take(i + 1).drop_last() =~= self@.children.take(i as int));
                assert(self@.children.take(i + 1).last() == child@);
            }
            if child.name == target {
                proof {
                    crate::views::lemma_view_all_push(matches@, child);
                }
                matches.push(child);
            }
            i = i + 1;
        }
        proof {
            assert(self@.children.take(i as int) =~= self@.children);
        }
        let ghost found_views = crate::views::view_all(matches@);
        match at_most_one(matches) {
            Ok(found) => {
                proof {
                    if found is Some {
                        assert(found_views[0] == found->0@);
                    }
                }
                Ok(found)
            },
            Err(_) => Err(
                Error::StructuralViolation {
                    name: String::from_str(name),
                    address: String::from_str(address),
                },
            ),
        }
    }

    /// Whether exactly one child bears `name`.
    pub fn has_child(&self, name: &str) -> (r: bool)
        ensures
            r == (self@.named_children(name@).len() == 1),
    {
        let target = String::from_str(name);
        let mut count: usize = 0;
        let mut i: usize = 0;
        proof {
            self.lemma_children_view();
            assert(self@.children.take(0) =~= Seq::<DocNodeView>::empty());
        }
        while i < self.children.len()
            invariant
                i <= self.children.len(),
                count <= i,
                target@ == name@,
                self@.children == crate::views::view_all(self.children@),
                count == named(self@.children.take(i as int), name@).len(),
            decreases self.children.len() - i,
        {
            proof {
                assert(self@.children.take(i + 1).drop_last() =~= self@.children.take(i as int));
                assert(self@.children.take(i + 1).last() == self.children[i as int]@);
            }
            if self.children[i].name == target {
                count = count + 1;
            }
            i = i + 1;
        }
        proof {
            assert(self@.children.take(i as int) =~= self@.children);
        }
        count == 1
    }

    /// The rank of child `i` among the children of its name up to it.
    fn rank_of_child(&self, i: usize) -> (r: usize)
        requires
            i < self.children.len(),
        ensures
            r == sibling_rank(self@.children, i as int),
            r <= i + 1,
    {
        let mut count: usize = 0;
        let mut j: usize = 0;
        proof {
            self.lemma_children_view();
            assert(self@.children.take(i as int).take(0) =~= Seq::<DocNodeView>::empty());
        }
        let ghost before = self@.children.take(i as int);
        let ghost name = self@.children[i as int].name;
        while j < i
            invariant
                j <= i < self.children.len(),
                count <= j,
                before == self@.children.take(i as int),
                name == self.children[i as int].name@,
                self@.children == crate::views::view_all(self.children@),
                count == named(before.take(j as int), name).len(),
            decreases i - j,
        {
            proof {
                assert(before.take(j + 1).drop_last() =~= before.take(j as int));
                assert(before.take(j + 1).last() == self.children[j as int]@);
            }
            if self.children[j].name == self.children[i].name {
                count = count + 1;
            }
            j = j + 1;
        }
        proof {
            assert(before.take(i as int) =~= before);
        }
        count + 1
    }

    /// Collects the nodes named `name` of this subtree, each with its
    /// address, in document order. `address` is the address of this node in
    /// the document `file_path`.
    pub fn descendants_named<'a>(&'a self, file_path: &str, address: &str, name: &str) -> (r: Vec<
        Located<'a>,
    >)
        ensures
            crate::views::view_all(r@) == self@.located(file_path@, address@, name@),
    {
        let mut out: Vec<Located<'a>> = Vec::new();
        assert(crate::views::view_all(out@) =~= Seq::<LocatedView>::empty());
        self.collect_named(file_path, address, name, &mut out);
        assert(Seq::<LocatedView>::empty() + self@.located(file_path@, address@, name@)
            =~= self@.located(file_path@, address@, name@));
        out
    }

    /// Appends to `out` what `descendants_named` collects.
    pub fn collect_named<'a>(
        &'a self,
        file_path: &str,
        address: &str,
        name: &str,
        out: &mut Vec<Located<'a>>,
    )
        ensures
            crate::views::view_all(final(out)@) == crate::views::view_all(old(out)@)
                + descendants_named(self@, file_path@, address@, name@),
        decreases self,
    {
        let ghost before = crate::views::view_all(out@);
        let ghost own = if self@.name == name@ {
            seq![LocatedView { file_path: file_path@, address: address@, node: self@ }]
        } else {
            Seq::empty()
        };
        if crate::text::str_equal(self.name.as_str(), name) {
            let here = Located {
                file_path: String::from_str(file_path),
                address: String::from_str(address),
                node: self,
            };
            proof {
                crate::views::lemma_view_all_push(out@, here);
            }
            out.push(here);
        }
        assert(crate::views::view_all(out@) =~= before + own);
        let mut i: usize = 0;
        proof {
            self.lemma_children_view();
        }
        while i < self.children.len()
            invariant
                i <= self.children.len(),
                self@.children == crate::views::view_all(self.children@),
                crate::views::view_all(out@) == before + own + descendants_below(
                    self@.children,
                    i as nat,
                    file_path@,
                    address@,
                    name@,
                ),
            decreases self.children.len() - i,
        {
            let child = &self.children[i];
            let rank = self.rank_of_child(i);
            let child_addr = get_xpath(address, child.name.as_str(), rank);
            let ghost sofar = crate::views::view_all(out@);
            child.collect_named(file_path, child_addr.as_str(), name, out);
            proof {
                let below = descendants_below(
                    self@.children,
                    i as nat,
                    file_path@,
                    address@,
                    name@,
                );
                let more = descendants_named(child@, file_path@, child_addr@, name@);
                assert(descendants_below(
                    self@.children,
                    (i + 1) as nat,
                    file_path@,
                    address@,
                    name@,
                ) == below + more);
                assert(sofar + more =~= before + own + (below + more));
            }
            i = i + 1;
        }
    }
}

/// Collects the nodes named `name` of each document, one document after the
/// other, each document in its own order.
pub fn locate_all<'a>(documents: &'a Vec<SourceDocument>, name: &str) -> (r: Vec<Located<'a>>)
    ensures
        crate::views::view_all(r@) == SourceDocumentView::located_in(
            crate::views::view_all(documents@),
            name@,
        ),
{
    let mut out: Vec<Located<'a>> = Vec::new();
    let ghost all = crate::views::view_all(documents@);
    proof {
        assert(crate::views::view_all(out@) =~= Seq::<LocatedView>::empty());
        assert(all.take(0) =~= Seq::<SourceDocumentView>::empty());
    }
    let mut i: usize = 0;
    while i < documents.len()
        invariant
            i <= documents.len(),
            all == crate::views::view_all(documents@),
            crate::views::view_all(out@) == SourceDocumentView::located_in(
                all.take(i as int),
                name@,
            ),
        decreases documents.len() - i,
    {
        let document = &documents[i];
        proof {
            assert(all.take(i + 1).drop_last() =~= all.take(i as int));
            assert(all.take(i + 1).last() == document@);
            reveal_strlit("");
            assert(""@ =~= Seq::<char>::empty());
        }
        document.root.collect_named(document.path.as_str(), "", name, &mut out);
        i = i + 1;
    }
    proof {
        assert(all.take(i as int) =~= all);
    }
    out
}

} // verus!
