//! What holds of every run: it is a function of its inputs, and the state
//! of a node without a rule of its own follows its parent's.

use vstd::prelude::*;
use crate::document::LocatedView;
use crate::document::SourceDocumentView;
use crate::error::ErrorView;
use crate::generator::PatchDocumentView;
use crate::identifier::NodeType;
use crate::identifier::ParentIdentifierView;
use crate::registry::RegistryView;
use crate::state::State;
use crate::values::ValueRules;
use crate::xml_structure::XmlTagView;

verus! {

/// Idempotence.
///
/// The patch documents of a run are decided by the documents, the query,
/// the three lists and the value rules: two outcomes that the contract of
/// `create_mod` admits for the same inputs are the same, document by
/// document and line by line.
pub proof fn lemma_runs_agree<R: ValueRules>(
    query: XmlTagView,
    properties: Seq<SourceDocumentView>,
    templates: Seq<SourceDocumentView>,
    excluded_templates: Seq<Seq<char>>,
    assets: Seq<SourceDocumentView>,
    forced_guids: Seq<Seq<char>>,
    excluded_guids: Seq<Seq<char>>,
    rules: &R,
    first: Result<Seq<PatchDocumentView>, ErrorView>,
    second: Result<Seq<PatchDocumentView>, ErrorView>,
)
    requires
        first == crate::generator::generated(
            query,
            properties,
            templates,
            excluded_templates,
            assets,
            forced_guids,
            excluded_guids,
            rules,
        ),
        second == crate::generator::generated(
            query,
            properties,
            templates,
            excluded_templates,
            assets,
            forced_guids,
            excluded_guids,
            rules,
        ),
    ensures
        first == second,
        first matches Ok(documents) ==> second matches Ok(others) && documents.len()
            == others.len() && forall|i: int|
            0 <= i < documents.len() ==> (#[trigger] documents[i]).xml_lines()
                == others[i].xml_lines(),
{
}

/// State monotonicity, for the rule itself.
///
/// A node that no rule names takes `ExcludedByAncestor` from a parent that
/// is excluded in either way, `ForcedByAncestor` from a parent that is
/// forced in either way, and `Included` from an included parent.
pub proof fn lemma_state_follows_parent(parent: State)
    ensures
        (parent == State::Excluded || parent == State::ExcludedByAncestor) ==> State::resolved(
            false,
            false,
            parent,
        ) == State::ExcludedByAncestor,
        (parent == State::Forced || parent == State::ForcedByAncestor) ==> State::resolved(
            false,
            false,
            parent,
        ) == State::ForcedByAncestor,
        parent == State::Included ==> State::resolved(false, false, parent) == State::Included,
{
}

/// State monotonicity, for the instances of a run.
///
/// Where a visit registers an instance, the new entry names a parent that
/// the registry holds, and unless a list names the instance its state is
/// `ExcludedByAncestor` below an excluded parent, `ForcedByAncestor` below
/// a forced one and `Included` below an included one.
pub proof fn lemma_asset_state_follows_parent(
    registry: RegistryView,
    item: LocatedView,
    query: XmlTagView,
    forced_guids: Seq<Seq<char>>,
    excluded_guids: Seq<Seq<char>>,
)
    requires
        registry.with_asset_node(item, query, forced_guids, excluded_guids) matches Ok(after)
            && after != registry,
    ensures
        ({
            let after = registry.with_asset_node(item, query, forced_guids, excluded_guids)->Ok_0;
            let entry = after.entries.last();
            &&& after.entries == registry.entries.push(entry)
            &&& entry.node_type == NodeType::Asset
            &&& registry.parent_entry(entry.parent) matches Some(parent) && (!forced_guids.contains(
                entry.identifier.value,
            ) && !excluded_guids.contains(entry.identifier.value) ==> entry.state
                == State::inherited(parent.state))
            &&& forced_guids.contains(entry.identifier.value) ==> entry.state == State::Forced
            &&& !forced_guids.contains(entry.identifier.value) && excluded_guids.contains(
                entry.identifier.value,
            ) ==> entry.state == State::Excluded
        }),
{
}

/// State monotonicity, for the templates of a run.
///
/// Where a visit registers a template, its state is `Excluded` if its name
/// is on the list, and else what the defaults hand down: `Included`, as
/// every defaults node is registered as included.
pub proof fn lemma_template_state_follows_parent(
    registry: RegistryView,
    item: LocatedView,
    query: XmlTagView,
    excluded_templates: Seq<Seq<char>>,
)
    requires
        registry.with_template_node(item, query, excluded_templates) matches Ok(after) && after
            != registry,
    ensures
        ({
            let after = registry.with_template_node(item, query, excluded_templates)->Ok_0;
            let entry = after.entries.last();
            &&& after.entries == registry.entries.push(entry)
            &&& entry.node_type == NodeType::Template
            &&& entry.parent == ParentIdentifierView::DefaultValues
            &&& excluded_templates.contains(entry.identifier.value) ==> entry.state
                == State::Excluded
            &&& !excluded_templates.contains(entry.identifier.value) ==> entry.state
                == State::inherited(
                registry.parent_state(ParentIdentifierView::DefaultValues),
            )
        }),
{
}

/// Where a visit registers a defaults node, the node is included and has no
/// parent.
pub proof fn lemma_defaults_are_included(
    registry: RegistryView,
    item: LocatedView,
    query: XmlTagView,
)
    requires
        registry.with_defaults_node(item, query) matches Ok(after) && after != registry,
    ensures
        ({
            let after = registry.with_defaults_node(item, query)->Ok_0;
            let entry = after.entries.last();
            &&& after.entries == registry.entries.push(entry)
            &&& entry.node_type == NodeType::DefaultValues
            &&& entry.parent == ParentIdentifierView::NoParent
            &&& entry.state == State::Included
        }),
{
}

/// Path well-formedness, for the entries of a run.
///
/// Let the path below which an entry's records lie exist in the document,
/// as does the path of every field that is present in its content. Then
/// the records of the entry are steps that apply in the order in which
/// they are written.
pub proof fn lemma_entry_records_apply<R: ValueRules>(
    entry: crate::registry::EntryView,
    rules: &R,
    existing: Set<Seq<char>>,
)
    requires
        entry.wf(),
        existing.contains(crate::generator::root_path(entry.identifier, entry.node_type)),
        entry.content.defined_in(
            existing,
            crate::generator::root_path(entry.identifier, entry.node_type),
        ),
        entry.records(rules) matches Ok(Some(_)),
    ensures
        exists|steps: Seq<crate::patch_laws::Step>|
            entry.records(rules)->Ok_0->0 == #[trigger] crate::patch_laws::Step::records(steps)
                && crate::patch_laws::Step::applicable(existing, steps),
{
    let root = crate::generator::root_path(entry.identifier, entry.node_type);
    crate::patch_laws::lemma_records_apply_in_order(
        entry.content,
        entry.state,
        rules,
        existing,
        root,
    );
    let steps = entry.content.operations(entry.state, rules)->Ok_0.steps(root);
    assert(entry.records(rules)->Ok_0->0 == crate::patch_laws::Step::records(steps));
}

impl RegistryView {
    /// Whether the content of every entry holds the query in full.
    pub open spec fn all_filled(self, query: XmlTagView) -> bool {
        forall|i: int|
            0 <= i < self.entries.len() ==> query.filled_by((#[trigger] self.entries[i]).content)
    }
}

/// Extraction completeness, along the chain of a run, for an instance.
///
/// Let the query be well formed, let the content of every entry hold the
/// query in full, and let the instance give a text wherever it defines a
/// leaf. Then after the visit the content of every entry holds the query
/// in full still: what any ancestor defines reaches the instance.
pub proof fn lemma_asset_content_complete(
    registry: RegistryView,
    item: LocatedView,
    query: XmlTagView,
    forced_guids: Seq<Seq<char>>,
    excluded_guids: Seq<Seq<char>>,
)
    requires
        registry.wf(),
        query.wf(),
        registry.all_filled(query),
        item.node.child("Values"@) matches Some(values) ==> query.texts_given(values),
        registry.with_asset_node(item, query, forced_guids, excluded_guids) is Ok,
    ensures
        registry.with_asset_node(item, query, forced_guids, excluded_guids)->Ok_0.all_filled(
            query,
        ),
{
    let after = registry.with_asset_node(item, query, forced_guids, excluded_guids)->Ok_0;
    if after != registry {
        let key = item.node.asset_parent(item.address)->Ok_0;
        crate::registry::lemma_parent_index_in_range(registry, key);
        let parent = registry.parent_entry(key)->0;
        let values = item.node.child("Values"@)->0;
        crate::content_laws::lemma_entry_complete(
            query,
            values,
            crate::document::DocNodeView::only_child_address(item.address, "Values"@),
            parent.content,
        );
        assert forall|i: int| 0 <= i < after.entries.len() implies query.filled_by(
            (#[trigger] after.entries[i]).content,
        ) by {
            if i < registry.entries.len() {
                assert(after.entries[i] == registry.entries[i]);
            }
        }
    }
}

/// Extraction completeness, along the chain of a run, for a template.
///
/// Let the query be well formed, let a defaults node be registered, let the
/// content of every entry hold the query in full, and let the template give
/// a text wherever it defines a leaf. Then after the visit the content of
/// every entry holds the query in full still.
pub proof fn lemma_template_content_complete(
    registry: RegistryView,
    item: LocatedView,
    query: XmlTagView,
    excluded_templates: Seq<Seq<char>>,
)
    requires
        registry.wf(),
        query.wf(),
        registry.all_filled(query),
        registry.parent_entry(ParentIdentifierView::DefaultValues) is Some,
        item.node.child("Properties"@) matches Some(properties) ==> query.texts_given(properties),
        registry.with_template_node(item, query, excluded_templates) is Ok,
    ensures
        registry.with_template_node(item, query, excluded_templates)->Ok_0.all_filled(query),
{
    let after = registry.with_template_node(item, query, excluded_templates)->Ok_0;
    if after != registry {
        crate::registry::lemma_parent_index_in_range(
            registry,
            ParentIdentifierView::DefaultValues,
        );
        let parent = registry.parent_entry(ParentIdentifierView::DefaultValues)->0;
        let properties = item.node.child("Properties"@)->0;
        crate::content_laws::lemma_entry_complete(
            query,
            properties,
            crate::document::DocNodeView::only_child_address(item.address, "Properties"@),
            parent.content,
        );
        assert forall|i: int| 0 <= i < after.entries.len() implies query.filled_by(
            (#[trigger] after.entries[i]).content,
        ) by {
            if i < registry.entries.len() {
                assert(after.entries[i] == registry.entries[i]);
            }
        }
    }
}

} // verus!
