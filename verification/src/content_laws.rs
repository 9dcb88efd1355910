//! What holds of every extracted content: presence is local to the
//! document node and nested, and a value that is not the node's own is the
//! parent's.

use vstd::prelude::*;
use crate::document::DocNodeView;
use crate::error::ErrorView;
use crate::xml_node::XmlNodeDataView;
use crate::xml_node::XmlNodeView;
use crate::xml_structure::ContentView;
use crate::xml_structure::XmlTagView;

verus! {

impl XmlNodeView {
    /// Whether two contents agree in shape, names and presence, whatever
    /// values they hold.
    pub open spec fn same_presence(self, other: XmlNodeView) -> bool
        decreases self,
    {
        self.name == other.name && self.present == other.present && match self.data {
            XmlNodeDataView::Branch(fields) => other.data matches XmlNodeDataView::Branch(others)
                && XmlNodeView::all_same_presence(fields, others),
            _ => !(other.data is Branch),
        }
    }

    /// Whether two runs of contents agree one by one in shape, names and
    /// presence.
    pub open spec fn all_same_presence(fields: Seq<XmlNodeView>, others: Seq<XmlNodeView>) -> bool
        decreases fields,
    {
        fields.len() == others.len() && (fields.len() == 0 || (XmlNodeView::all_same_presence(
            fields.drop_last(),
            others.drop_last(),
        ) && fields.last().same_presence(others.last())))
    }

    /// Whether every value in this content that is not the node's own is the
    /// one that `parent` holds at the same place: a leaf that is not present
    /// holds the parent's value and is absent exactly where the parent holds
    /// none, and a present leaf holds a value.
    pub open spec fn inherits(self, parent: Option<XmlNodeView>) -> bool
        decreases self,
    {
        match self.data {
            XmlNodeDataView::Branch(fields) => XmlNodeView::all_inherit(fields, parent),
            XmlNodeDataView::Leaf(value) => self.present || XmlNodeView::inherited_value(parent)
                == XmlNodeDataView::Leaf(value),
            XmlNodeDataView::Absent => !self.present && XmlNodeView::inherited_value(parent)
                is Absent,
        }
    }

    /// Whether each of `fields` inherits from what `parent` offers under its
    /// name.
    pub open spec fn all_inherit(fields: Seq<XmlNodeView>, parent: Option<XmlNodeView>) -> bool
        decreases fields,
    {
        if fields.len() == 0 {
            true
        } else {
            XmlNodeView::all_inherit(fields.drop_last(), parent) && fields.last().inherits(
                XmlNodeView::offered(parent, fields.last().name),
            )
        }
    }
}

/// Created content is present nowhere, has the shape that the query gives
/// it whatever the parent holds, and inherits from the parent.
pub proof fn lemma_created(
    query: XmlTagView,
    parent: Option<XmlNodeView>,
    other_parent: Option<XmlNodeView>,
)
    ensures
        query.created(parent).name == query.name,
        query.created(parent).present_free(),
        query.created(parent).same_presence(query.created(other_parent)),
        query.created(parent).inherits(parent),
    decreases query,
{
    match query.content {
        ContentView::Branch(fields) => {
            lemma_created_all(fields, parent, other_parent);
        },
        ContentView::Leaf => {},
    }
}

/// The same for the created content of a run of fields.
pub proof fn lemma_created_all(
    fields: Seq<XmlTagView>,
    parent: Option<XmlNodeView>,
    other_parent: Option<XmlNodeView>,
)
    ensures
        XmlNodeView::all_present_free(XmlTagView::created_all(fields, parent)),
        XmlNodeView::all_same_presence(
            XmlTagView::created_all(fields, parent),
            XmlTagView::created_all(fields, other_parent),
        ),
        XmlNodeView::all_inherit(XmlTagView::created_all(fields, parent), parent),
    decreases fields,
{
    if fields.len() > 0 {
        let last = fields.last();
        lemma_created_all(fields.drop_last(), parent, other_parent);
        lemma_created(
            last,
            XmlNodeView::offered(parent, last.name),
            XmlNodeView::offered(other_parent, last.name),
        );
        let before = XmlTagView::created_all(fields.drop_last(), parent);
        let other_before = XmlTagView::created_all(fields.drop_last(), other_parent);
        let content = last.created(XmlNodeView::offered(parent, last.name));
        let other_content = last.created(XmlNodeView::offered(other_parent, last.name));
        assert(before.push(content).drop_last() =~= before);
        assert(other_before.push(other_content).drop_last() =~= other_before);
    }
}

/// Whether two outcomes of an extraction agree but for the values: the same
/// error, nothing both times, or contents of the same presence.
pub open spec fn same_outcome(
    first: Result<Option<XmlNodeView>, ErrorView>,
    second: Result<Option<XmlNodeView>, ErrorView>,
) -> bool {
    match first {
        Err(e) => second == Err::<Option<XmlNodeView>, ErrorView>(e),
        Ok(None) => second == Ok::<Option<XmlNodeView>, ErrorView>(None),
        Ok(Some(content)) => second matches Ok(Some(other)) && content.same_presence(other),
    }
}

/// Presence locality, for a field of the query.
///
/// What is present in the content of a field is decided by the document
/// node alone: against any two parents `extracted_field` fails alike, gives
/// nothing alike, or gives contents that agree in shape, names and
/// presence. The root of the content is present exactly where the node has
/// the one child of the field's name.
pub proof fn lemma_presence_is_local(
    query: XmlTagView,
    node: DocNodeView,
    address: Seq<char>,
    parent: Option<XmlNodeView>,
    other_parent: Option<XmlNodeView>,
)
    ensures
        same_outcome(
            query.extracted_field(node, address, parent),
            query.extracted_field(node, address, other_parent),
        ),
        query.extracted_field(node, address, parent) matches Ok(Some(content)) ==> content.name
            == query.name && content.present == (node.named_children(query.name).len() == 1),
    decreases query,
{
    if node.ambiguous(query.name) {
    } else {
        match node.child(query.name) {
            None => {
                lemma_created(query, parent, other_parent);
            },
            Some(child) => match query.content {
                ContentView::Leaf => {},
                ContentView::Branch(fields) => {
                    lemma_presence_is_local_all(
                        fields,
                        child,
                        DocNodeView::only_child_address(address, query.name),
                        parent,
                        other_parent,
                    );
                },
            },
        }
    }
}

/// The same for the fields of a branch.
pub proof fn lemma_presence_is_local_all(
    fields: Seq<XmlTagView>,
    node: DocNodeView,
    address: Seq<char>,
    parent: Option<XmlNodeView>,
    other_parent: Option<XmlNodeView>,
)
    ensures
        match XmlTagView::extracted_all(fields, node, address, parent) {
            Err(e) => XmlTagView::extracted_all(fields, node, address, other_parent) == Err::<
                Seq<XmlNodeView>,
                ErrorView,
            >(e),
            Ok(contents) => XmlTagView::extracted_all(fields, node, address, other_parent)
                matches Ok(others) && XmlNodeView::all_same_presence(contents, others),
        },
    decreases fields,
{
    if fields.len() > 0 {
        let last = fields.last();
        lemma_presence_is_local_all(fields.drop_last(), node, address, parent, other_parent);
        lemma_presence_is_local(
            last,
            node,
            address,
            XmlNodeView::offered(parent, last.name),
            XmlNodeView::offered(other_parent, last.name),
        );
        match XmlTagView::extracted_all(fields.drop_last(), node, address, parent) {
            Err(_) => {},
            Ok(before) => {
                let other_before = XmlTagView::extracted_all(
                    fields.drop_last(),
                    node,
                    address,
                    other_parent,
                )->Ok_0;
                match last.extracted_field(node, address, XmlNodeView::offered(parent, last.name)) {
                    Ok(Some(content)) => {
                        let other = last.extracted_field(
                            node,
                            address,
                            XmlNodeView::offered(other_parent, last.name),
                        )->Ok_0->0;
                        assert(before.push(content).drop_last() =~= before);
                        assert(other_before.push(other).drop_last() =~= other_before);
                    },
                    _ => {},
                }
            },
        }
    }
}

/// The content of a field is nested in its presence, and every value in it
/// that is not the node's own is the parent's: a leaf is absent only where
/// the node does not define it and the parent holds no value for it.
pub proof fn lemma_extracted_inherits(
    query: XmlTagView,
    node: DocNodeView,
    address: Seq<char>,
    parent: Option<XmlNodeView>,
)
    requires
        query.extracted_field(node, address, parent) matches Ok(Some(_)),
    ensures
        query.extracted_field(node, address, parent)->Ok_0->0.name == query.name,
        query.extracted_field(node, address, parent)->Ok_0->0.nested(),
        query.extracted_field(node, address, parent)->Ok_0->0.inherits(parent),
    decreases query,
{
    match node.child(query.name) {
        None => {
            lemma_created(query, parent, parent);
            crate::patch_laws::lemma_present_free(query.created(parent), Set::empty(), address);
        },
        Some(child) => match query.content {
            ContentView::Leaf => {},
            ContentView::Branch(fields) => {
                lemma_extracted_all_inherit(
                    fields,
                    child,
                    DocNodeView::only_child_address(address, query.name),
                    parent,
                );
            },
        },
    }
}

/// The same for the fields of a branch.
pub proof fn lemma_extracted_all_inherit(
    fields: Seq<XmlTagView>,
    node: DocNodeView,
    address: Seq<char>,
    parent: Option<XmlNodeView>,
)
    requires
        XmlTagView::extracted_all(fields, node, address, parent) is Ok,
    ensures
        XmlNodeView::all_nested(XmlTagView::extracted_all(fields, node, address, parent)->Ok_0),
        XmlNodeView::all_inherit(
            XmlTagView::extracted_all(fields, node, address, parent)->Ok_0,
            parent,
        ),
    decreases fields,
{
    if fields.len() > 0 {
        let last = fields.last();
        lemma_extracted_all_inherit(fields.drop_last(), node, address, parent);
        let before = XmlTagView::extracted_all(fields.drop_last(), node, address, parent)->Ok_0;
        match last.extracted_field(node, address, XmlNodeView::offered(parent, last.name)) {
            Ok(Some(content)) => {
                lemma_extracted_inherits(
                    last,
                    node,
                    address,
                    XmlNodeView::offered(parent, last.name),
                );
                assert(before.push(content).drop_last() =~= before);
            },
            _ => {},
        }
    }
}

/// No content without a value, unless the node itself defines the field.
///
/// Where the node has no child of the query's name, the extraction gives
/// no content unless the parent's content holds a value for it; without a
/// parent it gives none. So a node that defines nothing of the query, below
/// ancestors that define nothing of it, is not registered.
pub proof fn lemma_nothing_defined_nothing_extracted(
    query: XmlTagView,
    node: DocNodeView,
    address: Seq<char>,
    parent: Option<XmlNodeView>,
)
    requires
        node.named_children(query.name).len() == 0,
    ensures
        query.extracted(node, address, parent) matches Ok(found) && (found matches Some(content)
            ==> content == query.created(parent) && content.holds_value()),
        !query.created(parent).holds_value() ==> query.extracted(node, address, parent) == Ok::<
            Option<XmlNodeView>,
            ErrorView,
        >(None),
        parent is None ==> query.extracted(node, address, parent) == Ok::<
            Option<XmlNodeView>,
            ErrorView,
        >(None),
{
    if parent is None {
        lemma_created_without_parent(query);
    }
}

/// Content created without a parent holds no value.
pub proof fn lemma_created_without_parent(query: XmlTagView)
    ensures
        !query.created(None).holds_value(),
    decreases query,
{
    match query.content {
        ContentView::Branch(fields) => {
            lemma_created_all_without_parent(fields);
        },
        ContentView::Leaf => {},
    }
}

/// The same for the created content of a run of fields.
pub proof fn lemma_created_all_without_parent(fields: Seq<XmlTagView>)
    ensures
        !XmlNodeView::any_holds_value(XmlTagView::created_all(fields, None)),
    decreases fields,
{
    if fields.len() > 0 {
        lemma_created_all_without_parent(fields.drop_last());
        lemma_created_without_parent(fields.last());
        let before = XmlTagView::created_all(fields.drop_last(), None);
        let content = fields.last().created(XmlNodeView::offered(None, fields.last().name));
        assert(before.push(content).drop_last() =~= before);
    }
}

/// Presence locality, for the content of a node.
///
/// Against any two parents the extraction fails alike, and where it gives
/// a content against both, the two agree in shape, names and presence. The
/// parent decides only whether a node that does not define the query has a
/// content at all.
pub proof fn lemma_entry_presence_is_local(
    query: XmlTagView,
    node: DocNodeView,
    address: Seq<char>,
    parent: Option<XmlNodeView>,
    other_parent: Option<XmlNodeView>,
)
    ensures
        query.extracted(node, address, parent) matches Err(e) ==> query.extracted(
            node,
            address,
            other_parent,
        ) == Err::<Option<XmlNodeView>, ErrorView>(e),
        query.extracted(node, address, parent) matches Ok(Some(content)) ==> content.name
            == query.name && content.present == (node.named_children(query.name).len() == 1) && (
        query.extracted(node, address, other_parent) matches Ok(Some(other))
            ==> content.same_presence(other)),
        node.named_children(query.name).len() != 0 ==> same_outcome(
            query.extracted(node, address, parent),
            query.extracted(node, address, other_parent),
        ),
{
    lemma_presence_is_local(query, node, address, parent, other_parent);
    lemma_created(query, parent, other_parent);
}

/// What `lemma_extracted_inherits` says, for the content of a node.
pub proof fn lemma_entry_inherits(
    query: XmlTagView,
    node: DocNodeView,
    address: Seq<char>,
    parent: Option<XmlNodeView>,
)
    requires
        query.extracted(node, address, parent) matches Ok(Some(_)),
    ensures
        query.extracted(node, address, parent)->Ok_0->0.name == query.name,
        query.extracted(node, address, parent)->Ok_0->0.nested(),
        query.extracted(node, address, parent)->Ok_0->0.inherits(parent),
{
    if node.named_children(query.name).len() == 0 {
        lemma_created(query, parent, parent);
        crate::patch_laws::lemma_present_free(query.created(parent), Set::empty(), address);
    } else {
        lemma_extracted_inherits(query, node, address, parent);
    }
}

/// What `lemma_extracted_inherits` says, for the content found below the
/// `Values` of an instance.
pub proof fn lemma_from_values_inherits(
    query: XmlTagView,
    node: DocNodeView,
    address: Seq<char>,
    parent: Option<XmlNodeView>,
)
    requires
        query.extracted_from_values(node, address, parent) matches Ok(Some(_)),
    ensures
        query.extracted_from_values(node, address, parent)->Ok_0->0.name == query.name,
        query.extracted_from_values(node, address, parent)->Ok_0->0.nested(),
        query.extracted_from_values(node, address, parent)->Ok_0->0.inherits(parent),
{
    lemma_entry_inherits(
        query,
        node.child("Values"@)->0,
        DocNodeView::only_child_address(address, "Values"@),
        parent,
    );
}

/// What `lemma_extracted_inherits` says, for the content found below the
/// `Properties` of a template.
pub proof fn lemma_from_properties_inherits(
    query: XmlTagView,
    node: DocNodeView,
    address: Seq<char>,
    parent: Option<XmlNodeView>,
)
    requires
        query.extracted_from_properties(node, address, parent) matches Ok(Some(_)),
    ensures
        query.extracted_from_properties(node, address, parent)->Ok_0->0.name == query.name,
        query.extracted_from_properties(node, address, parent)->Ok_0->0.nested(),
        query.extracted_from_properties(node, address, parent)->Ok_0->0.inherits(parent),
{
    match node.child("Properties"@) {
        None => {
            lemma_created(query, parent, parent);
            crate::patch_laws::lemma_present_free(query.created(parent), Set::empty(), address);
        },
        Some(properties) => {
            lemma_entry_inherits(
                query,
                properties,
                DocNodeView::only_child_address(address, "Properties"@),
                parent,
            );
        },
    }
}

impl XmlTagView {
    /// Whether no two of `fields` bear the same name.
    pub open spec fn distinct_names(fields: Seq<XmlTagView>) -> bool {
        forall|i: int, j: int|
            0 <= i < j < fields.len() ==> (#[trigger] fields[i]).name != (#[trigger] fields[j]).name
    }

    /// Whether the query is well formed: below every branch no two fields
    /// bear the same name.
    pub open spec fn wf(self) -> bool
        decreases self,
    {
        match self.content {
            ContentView::Branch(fields) => XmlTagView::distinct_names(fields) && forall|i: int|
                0 <= i < fields.len() ==> (#[trigger] fields[i]).wf(),
            ContentView::Leaf => true,
        }
    }

    /// Whether `content` holds this field in full: it bears the field's
    /// name, holds a value where the field is a leaf, and holds each field
    /// of a branch in full, in the order of the query.
    pub open spec fn filled_by(self, content: XmlNodeView) -> bool
        decreases self,
    {
        content.name == self.name && match self.content {
            ContentView::Leaf => content.data is Leaf,
            ContentView::Branch(fields) => content.data matches XmlNodeDataView::Branch(contents)
                && XmlTagView::all_filled_by(fields, contents),
        }
    }

    /// Whether `contents` hold `fields` in full, one by one.
    pub open spec fn all_filled_by(fields: Seq<XmlTagView>, contents: Seq<XmlNodeView>) -> bool
        decreases fields,
    {
        fields.len() == contents.len() && forall|i: int|
            0 <= i < fields.len() ==> (#[trigger] fields[i]).filled_by(contents[i])
    }

    /// Whether the document gives a text wherever it defines a leaf of this
    /// field below `node`.
    pub open spec fn texts_given(self, node: DocNodeView) -> bool
        decreases self,
    {
        match node.child(self.name) {
            None => true,
            Some(child) => match self.content {
                ContentView::Leaf => child.text is Some,
                ContentView::Branch(fields) => forall|i: int|
                    0 <= i < fields.len() ==> (#[trigger] fields[i]).texts_given(child),
            },
        }
    }
}

/// Among contents of which none before the one at `at` bears `name`, the
/// first that bears it is the one at `at`.
pub proof fn lemma_first_named_at(contents: Seq<XmlNodeView>, at: int, name: Seq<char>)
    requires
        0 <= at < contents.len(),
        contents[at].name == name,
        forall|j: int| 0 <= j < at ==> (#[trigger] contents[j]).name != name,
    ensures
        XmlNodeView::first_named(contents, name) == Some(contents[at]),
    decreases at,
{
    if at > 0 {
        let rest = contents.drop_first();
        assert(rest[at - 1] == contents[at]);
        assert forall|j: int| 0 <= j < at - 1 implies (#[trigger] rest[j]).name != name by {
            assert(rest[j] == contents[j + 1]);
        }
        lemma_first_named_at(rest, at - 1, name);
    }
}

/// A parent that holds the fields of a well-formed branch in full offers
/// each field its own content.
pub proof fn lemma_offered_in_full(
    fields: Seq<XmlTagView>,
    parent: XmlNodeView,
    contents: Seq<XmlNodeView>,
    at: int,
)
    requires
        XmlTagView::distinct_names(fields),
        parent.data == XmlNodeDataView::Branch(contents),
        XmlTagView::all_filled_by(fields, contents),
        0 <= at < fields.len(),
    ensures
        XmlNodeView::offered(Some(parent), fields[at].name) == Some(contents[at]),
{
    assert(fields[at].filled_by(contents[at]));
    assert forall|j: int| 0 <= j < at implies (#[trigger] contents[j]).name
        != fields[at].name by {
        assert(fields[j].filled_by(contents[j]));
    }
    lemma_first_named_at(contents, at, fields[at].name);
}

/// Content created against a parent that holds the field in full holds it
/// in full.
pub proof fn lemma_created_complete(query: XmlTagView, parent: XmlNodeView)
    requires
        query.wf(),
        query.filled_by(parent),
    ensures
        query.filled_by(query.created(Some(parent))),
    decreases query, 1nat,
{
    match query.content {
        ContentView::Branch(fields) => {
            lemma_created_all_complete(fields, fields.len() as int, parent);
            assert(fields.take(fields.len() as int) =~= fields);
        },
        ContentView::Leaf => {},
    }
}

/// The same for the first `k` fields of a branch.
pub proof fn lemma_created_all_complete(fields: Seq<XmlTagView>, k: int, parent: XmlNodeView)
    requires
        XmlTagView::distinct_names(fields),
        forall|i: int| 0 <= i < fields.len() ==> (#[trigger] fields[i]).wf(),
        parent.data matches XmlNodeDataView::Branch(contents) && XmlTagView::all_filled_by(
            fields,
            contents,
        ),
        0 <= k <= fields.len(),
    ensures
        XmlTagView::all_filled_by(
            fields.take(k),
            XmlTagView::created_all(fields.take(k), Some(parent)),
        ),
    decreases fields, 0nat, k,
{
    let contents = parent.data->Branch_0;
    let created = XmlTagView::created_all(fields.take(k), Some(parent));
    if k > 0 {
        lemma_created_all_complete(fields, k - 1, parent);
        assert(fields.take(k).drop_last() =~= fields.take(k - 1));
        assert(fields.take(k).last() == fields[k - 1]);
        lemma_offered_in_full(fields, parent, contents, k - 1);
        assert(fields[k - 1].filled_by(contents[k - 1]));
        lemma_created_complete(fields[k - 1], contents[k - 1]);
        let before = XmlTagView::created_all(fields.take(k - 1), Some(parent));
        assert forall|i: int| 0 <= i < k implies (#[trigger] fields.take(k)[i]).filled_by(
            created[i],
        ) by {
            if i < k - 1 {
                assert(fields.take(k - 1)[i].filled_by(before[i]));
            }
        }
    }
}

/// Extraction completeness, for a field of the query.
///
/// Let the query be well formed, let the parent's content hold the field
/// in full, and let the document give a text wherever it defines a leaf.
/// Then `extracted_field`, where it does not fail, gives a content that
/// holds the field in full: no leaf in it is absent.
pub proof fn lemma_extraction_complete(
    query: XmlTagView,
    node: DocNodeView,
    address: Seq<char>,
    parent: XmlNodeView,
)
    requires
        query.wf(),
        query.filled_by(parent),
        query.texts_given(node),
        query.extracted_field(node, address, Some(parent)) is Ok,
    ensures
        query.extracted_field(node, address, Some(parent)) matches Ok(Some(content))
            && query.filled_by(content),
    decreases query, 1nat,
{
    match node.child(query.name) {
        None => {
            lemma_created_complete(query, parent);
        },
        Some(child) => match query.content {
            ContentView::Leaf => {},
            ContentView::Branch(fields) => {
                let below = DocNodeView::only_child_address(address, query.name);
                assert(fields.take(fields.len() as int) =~= fields);
                lemma_extraction_all_complete(fields, fields.len() as int, child, below, parent);
            },
        },
    }
}

/// The same for the first `k` fields of a branch.
pub proof fn lemma_extraction_all_complete(
    fields: Seq<XmlTagView>,
    k: int,
    node: DocNodeView,
    address: Seq<char>,
    parent: XmlNodeView,
)
    requires
        XmlTagView::distinct_names(fields),
        forall|i: int| 0 <= i < fields.len() ==> (#[trigger] fields[i]).wf(),
        forall|i: int| 0 <= i < fields.len() ==> (#[trigger] fields[i]).texts_given(node),
        parent.data matches XmlNodeDataView::Branch(contents) && XmlTagView::all_filled_by(
            fields,
            contents,
        ),
        0 <= k <= fields.len(),
        XmlTagView::extracted_all(fields.take(k), node, address, Some(parent)) is Ok,
    ensures
        XmlTagView::all_filled_by(
            fields.take(k),
            XmlTagView::extracted_all(fields.take(k), node, address, Some(parent))->Ok_0,
        ),
    decreases fields, 0nat, k,
{
    let contents = parent.data->Branch_0;
    let extracted = XmlTagView::extracted_all(fields.take(k), node, address, Some(parent))->Ok_0;
    if k > 0 {
        assert(fields.take(k).drop_last() =~= fields.take(k - 1));
        assert(fields.take(k).last() == fields[k - 1]);
        lemma_extraction_all_complete(fields, k - 1, node, address, parent);
        lemma_offered_in_full(fields, parent, contents, k - 1);
        assert(fields[k - 1].filled_by(contents[k - 1]));
        lemma_extraction_complete(fields[k - 1], node, address, contents[k - 1]);
        let before = XmlTagView::extracted_all(
            fields.take(k - 1),
            node,
            address,
            Some(parent),
        )->Ok_0;
        assert forall|i: int| 0 <= i < k implies (#[trigger] fields.take(k)[i]).filled_by(
            extracted[i],
        ) by {
            if i < k - 1 {
                assert(fields.take(k - 1)[i].filled_by(before[i]));
            }
        }
    }
}

/// Extraction completeness, for the content of a node.
///
/// Under the conditions of `lemma_extraction_complete`, the content of a
/// node, where it has one, holds the query in full.
pub proof fn lemma_entry_complete(
    query: XmlTagView,
    node: DocNodeView,
    address: Seq<char>,
    parent: XmlNodeView,
)
    requires
        query.wf(),
        query.filled_by(parent),
        query.texts_given(node),
        query.extracted(node, address, Some(parent)) matches Ok(Some(_)),
    ensures
        query.filled_by(query.extracted(node, address, Some(parent))->Ok_0->0),
{
    if node.named_children(query.name).len() == 0 {
        lemma_created_complete(query, parent);
    } else {
        lemma_extraction_complete(query, node, address, parent);
    }
}

} // verus!
