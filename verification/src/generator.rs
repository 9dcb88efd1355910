//! A whole run: the documents are visited kind by kind, defaults before
//! templates before instances, and the registry that results is compiled
//! into one patch document per source file.

use vstd::prelude::*;
use crate::document::Located;
use crate::document::LocatedView;
use crate::document::SourceDocument;
use crate::document::SourceDocumentView;
use crate::document::locate_all;
use crate::error::Error;
use crate::error::ErrorView;
use crate::identifier::Identifier;
use crate::identifier::IdentifierView;
use crate::identifier::Kind;
use crate::identifier::NodeType;
use crate::mod_ops::ModOp;
use crate::mod_ops::ModOpView;
use crate::mod_ops::are_any_changes_required;
use crate::mod_ops::convert_mod_ops_structure_to_mod_ops;
use crate::mod_ops::create_mod_ops_structure;
use crate::registry::Entry;
use crate::registry::EntryView;
use crate::registry::Registry;
use crate::registry::RegistryView;
use crate::text::concat3;
use crate::values::ValueRules;
use crate::xml_structure::XmlTag;
use crate::xml_structure::XmlTagView;

verus! {

/// The records that patch one source file.
#[derive(Clone, Debug, PartialEq, Eq)]
pub struct PatchDocument {
    pub path: String,
    pub mod_ops: Vec<ModOp>,
}

/// The mathematical content of a [`PatchDocument`].
pub struct PatchDocumentView {
    pub path: Seq<char>,
    pub mod_ops: Seq<ModOpView>,
}

impl View for PatchDocument {
    type V = PatchDocumentView;

    open spec fn view(&self) -> PatchDocumentView {
        PatchDocumentView { path: self.path@, mod_ops: crate::views::view_all(self.mod_ops@) }
    }
}

/// The path below which the records of an identifier lie: for a defaults
/// node its address; for an instance known by its address the `Values`
/// below that address; for a template and for an instance known by its
/// global id a selector that finds the node by name or id and leads to its
/// `Properties` or `Values`.
pub open spec fn root_path(identifier: IdentifierView, node_type: NodeType) -> Seq<char> {
    match identifier.kind {
        Kind::XPath => match node_type {
            NodeType::Asset => identifier.value + "/Values"@,
            _ => identifier.value,
        },
        Kind::Name => "//Template[Name='"@ + identifier.value + "']/Properties"@,
        Kind::GUID => "//Asset[Values/Standard/GUID = '"@ + identifier.value + "']/Values"@,
    }
}

impl PatchDocumentView {
    /// The place of the first of `documents` that patches `path`.
    pub open spec fn position(documents: Seq<PatchDocumentView>, path: Seq<char>) -> Option<int>
        decreases documents.len(),
    {
        if documents.len() == 0 {
            None
        } else {
            match PatchDocumentView::position(documents.drop_last(), path) {
                Some(i) => Some(i),
                None => if documents.last().path == path {
                    Some(documents.len() - 1)
                } else {
                    None
                },
            }
        }
    }

    /// `documents` after `records` are filed under `path`: behind the
    /// records of the document for that path, or as a new last document.
    pub open spec fn filed(
        documents: Seq<PatchDocumentView>,
        path: Seq<char>,
        records: Seq<ModOpView>,
    ) -> Seq<PatchDocumentView> {
        match PatchDocumentView::position(documents, path) {
            Some(i) => documents.update(
                i,
                PatchDocumentView { path: documents[i].path, mod_ops: documents[i].mod_ops + records },
            ),
            None => documents.push(PatchDocumentView { path, mod_ops: records }),
        }
    }

    /// Whether `documents` are as a run leaves them: each holds a record,
    /// and no two patch the same path.
    pub open spec fn all_wf(documents: Seq<PatchDocumentView>) -> bool {
        &&& forall|i: int| 0 <= i < documents.len() ==> (#[trigger] documents[i]).mod_ops.len() > 0
        &&& forall|i: int, j: int|
            0 <= i < j < documents.len() ==> (#[trigger] documents[i]).path != (
            #[trigger] documents[j]).path
    }

    /// The lines that `records` contribute to a document, each line of each
    /// record indented by two blanks.
    pub open spec fn record_lines(records: Seq<ModOpView>) -> Seq<Seq<char>>
        decreases records.len(),
    {
        if records.len() == 0 {
            Seq::empty()
        } else {
            PatchDocumentView::record_lines(records.drop_last()) + seq![
                "  "@ + records.last().xml_lines()[0],
                "  "@ + records.last().xml_lines()[1],
                "  "@ + records.last().xml_lines()[2],
            ]
        }
    }

    /// The lines of the document as it is written out.
    pub open spec fn xml_lines(self) -> Seq<Seq<char>> {
        seq!["<ModOps>"@] + PatchDocumentView::record_lines(self.mod_ops) + seq!["</ModOps>"@]
    }
}

impl EntryView {
    /// The records of this entry; none where its operation tree holds no
    /// operation.
    pub open spec fn records<R: ValueRules>(self, rules: &R) -> Result<
        Option<Seq<ModOpView>>,
        ErrorView,
    > {
        match self.content.operations(self.state, rules) {
            Err(e) => Err(e),
            Ok(tree) => if tree.changes_required() {
                Ok(Some(tree.records(root_path(self.identifier, self.node_type))))
            } else {
                Ok(None)
            },
        }
    }
}

impl RegistryView {
    /// The patch documents of `entries`: the records of each entry, in
    /// order of registration, filed under the entry's source file. The first
    /// failure of a value rule ends it.
    pub open spec fn patches_of<R: ValueRules>(entries: Seq<EntryView>, rules: &R) -> Result<
        Seq<PatchDocumentView>,
        ErrorView,
    >
        decreases entries.len(),
    {
        if entries.len() == 0 {
            Ok(Seq::empty())
        } else {
            match RegistryView::patches_of(entries.drop_last(), rules) {
                Err(e) => Err(e),
                Ok(documents) => match entries.last().records(rules) {
                    Err(e) => Err(e),
                    Ok(None) => Ok(documents),
                    Ok(Some(records)) => Ok(
                        PatchDocumentView::filed(
                            documents,
                            entries.last().identifier.file_path,
                            records,
                        ),
                    ),
                },
            }
        }
    }

    /// The patch documents of the registry.
    pub open spec fn patches<R: ValueRules>(self, rules: &R) -> Result<
        Seq<PatchDocumentView>,
        ErrorView,
    > {
        RegistryView::patches_of(self.entries, rules)
    }
}

/// The registry of a run: the defaults nodes of the defaults documents, then
/// the templates of the template documents, then the instances of the
/// instance documents, each kind in document order.
pub open spec fn resolved(
    query: XmlTagView,
    properties: Seq<SourceDocumentView>,
    templates: Seq<SourceDocumentView>,
    excluded_templates: Seq<Seq<char>>,
    assets: Seq<SourceDocumentView>,
    forced_guids: Seq<Seq<char>>,
    excluded_guids: Seq<Seq<char>>,
) -> Result<RegistryView, ErrorView> {
    match RegistryView::empty().with_defaults(
        SourceDocumentView::located_in(properties, "DefaultValues"@),
        query,
    ) {
        Err(e) => Err(e),
        Ok(defaults) => match defaults.with_templates(
            SourceDocumentView::located_in(templates, "Template"@),
            query,
            excluded_templates,
        ) {
            Err(e) => Err(e),
            Ok(with_templates) => with_templates.with_assets(
                SourceDocumentView::located_in(assets, "Asset"@),
                query,
                forced_guids,
                excluded_guids,
            ),
        },
    }
}

/// The patch documents of a run.
pub open spec fn generated<R: ValueRules>(
    query: XmlTagView,
    properties: Seq<SourceDocumentView>,
    templates: Seq<SourceDocumentView>,
    excluded_templates: Seq<Seq<char>>,
    assets: Seq<SourceDocumentView>,
    forced_guids: Seq<Seq<char>>,
    excluded_guids: Seq<Seq<char>>,
    rules: &R,
) -> Result<Seq<PatchDocumentView>, ErrorView> {
    match resolved(
        query,
        properties,
        templates,
        excluded_templates,
        assets,
        forced_guids,
        excluded_guids,
    ) {
        Err(e) => Err(e),
        Ok(registry) => registry.patches(rules),
    }
}

/// The place found for a path holds a document for that path; where none is
/// found, no document is for that path.
pub proof fn lemma_position(documents: Seq<PatchDocumentView>, path: Seq<char>)
    ensures
        match PatchDocumentView::position(documents, path) {
            Some(i) => 0 <= i < documents.len() && documents[i].path == path,
            None => forall|j: int| 0 <= j < documents.len() ==> (#[trigger] documents[j]).path != path,
        },
    decreases documents.len(),
{
    if documents.len() > 0 {
        lemma_position(documents.drop_last(), path);
        if PatchDocumentView::position(documents.drop_last(), path) is None {
            assert forall|j: int| 0 <= j < documents.len() - 1 implies (#[trigger] documents[j]).path
                != path by {
                assert(documents[j] == documents.drop_last()[j]);
            }
        }
    }
}

/// Filing records keeps the documents as a run leaves them.
pub proof fn lemma_filed_wf(
    documents: Seq<PatchDocumentView>,
    path: Seq<char>,
    records: Seq<ModOpView>,
)
    requires
        PatchDocumentView::all_wf(documents),
        records.len() > 0,
    ensures
        PatchDocumentView::all_wf(PatchDocumentView::filed(documents, path, records)),
{
    lemma_position(documents, path);
}

/// The patch documents of a run hold a record each, and no two of them
/// patch the same source file.
pub proof fn lemma_patches_wf<R: ValueRules>(entries: Seq<EntryView>, rules: &R)
    requires
        RegistryView::patches_of(entries, rules) is Ok,
    ensures
        PatchDocumentView::all_wf(RegistryView::patches_of(entries, rules)->Ok_0),
    decreases entries.len(),
{
    if entries.len() > 0 {
        lemma_patches_wf(entries.drop_last(), rules);
        let documents = RegistryView::patches_of(entries.drop_last(), rules)->Ok_0;
        let entry = entries.last();
        match entry.records(rules) {
            Ok(Some(records)) => {
                let tree = entry.content.operations(entry.state, rules)->Ok_0;
                crate::patch_laws::lemma_operation_gives_record(
                    tree,
                    root_path(entry.identifier, entry.node_type),
                );
                lemma_filed_wf(documents, entry.identifier.file_path, records);
            },
            _ => {},
        }
    }
}

/// A failure met among the first entries is the outcome for all.
pub proof fn lemma_patches_of_error<R: ValueRules>(entries: Seq<EntryView>, k: int, rules: &R)
    requires
        0 <= k <= entries.len(),
        RegistryView::patches_of(entries.take(k), rules) is Err,
    ensures
        RegistryView::patches_of(entries, rules) == RegistryView::patches_of(
            entries.take(k),
            rules,
        ),
    decreases entries.len() - k,
{
    if k == entries.len() {
        assert(entries.take(k) =~= entries);
    } else {
        assert(entries.drop_last().take(k) =~= entries.take(k));
        lemma_patches_of_error(entries.drop_last(), k, rules);
    }
}

/// Builds the path below which the records of an identifier lie. An
/// address never stands for a template.
pub fn mod_op_root_path(identifier: &Identifier, node_type: NodeType) -> (r: String)
    requires
        !(identifier.kind == Kind::XPath && node_type == NodeType::Template),
    ensures
        r@ == root_path(identifier@, node_type),
{
    match identifier.kind {
        Kind::XPath => match node_type {
            NodeType::Asset => identifier.value.clone().concat("/Values"),
            _ => identifier.value.clone(),
        },
        Kind::Name => concat3("//Template[Name='", identifier.value.as_str(), "']/Properties"),
        Kind::GUID => concat3(
            "//Asset[Values/Standard/GUID = '",
            identifier.value.as_str(),
            "']/Values",
        ),
    }
}

/// Files `records` under `path`: behind the records of the document for
/// that path, or as a new last document.
pub fn file_records(documents: &mut Vec<PatchDocument>, path: &str, records: Vec<ModOp>)
    ensures
        crate::views::view_all(final(documents)@) == PatchDocumentView::filed(
            crate::views::view_all(old(documents)@),
            path@,
            crate::views::view_all(records@),
        ),
{
    let ghost before = crate::views::view_all(documents@);
    let target = String::from_str(path);
    let mut found: Option<usize> = None;
    let mut i: usize = 0;
    proof {
        assert(before.take(0) =~= Seq::<PatchDocumentView>::empty());
    }
    while i < documents.len()
        invariant
            i <= documents.len(),
            target@ == path@,
            before == crate::views::view_all(documents@),
            match found {
                Some(at) => PatchDocumentView::position(before.take(i as int), path@) == Some(
                    at as int,
                ) && at < i,
                None => PatchDocumentView::position(before.take(i as int), path@) is None,
            },
        decreases documents.len() - i,
    {
        proof {
            assert(before.take(i + 1).drop_last() =~= before.take(i as int));
            assert(before.take(i + 1).last() == documents@[i as int]@);
        }
        if found.is_none() && documents[i].path == target {
            found = Some(i);
        }
        i = i + 1;
    }
    proof {
        assert(before.take(i as int) =~= before);
    }
    let mut records = records;
    match found {
        Some(at) => {
            let mut document = documents.remove(at);
            let ghost old_ops = crate::views::view_all(document.mod_ops@);
            let ghost more = crate::views::view_all(records@);
            proof {
                assert(crate::views::view_all(document.mod_ops@ + records@) =~= old_ops + more);
            }
            document.mod_ops.append(&mut records);
            documents.insert(at, document);
            proof {
                assert(crate::views::view_all(documents@) =~= PatchDocumentView::filed(
                    before,
                    path@,
                    more,
                ));
            }
        },
        None => {
            let document = PatchDocument { path: target, mod_ops: records };
            proof {
                crate::views::lemma_view_all_push(documents@, document);
            }
            documents.push(document);
        },
    }
}

impl Entry {
    /// Compiles the entry into its records; `None` where its operation tree
    /// holds no operation.
    pub fn compile<R: ValueRules>(&self, rules: &R) -> (r: Result<Option<Vec<ModOp>>, Error>)
        requires
            self@.wf(),
        ensures
            match r {
                Ok(Some(records)) => self@.records(rules) == Ok::<
                    Option<Seq<ModOpView>>,
                    ErrorView,
                >(Some(crate::views::view_all(records@))),
                Ok(None) => self@.records(rules) == Ok::<Option<Seq<ModOpView>>, ErrorView>(None),
                Err(e) => self@.records(rules) == Err::<Option<Seq<ModOpView>>, ErrorView>(e@),
            },
    {
        let mod_ops_structure = create_mod_ops_structure(&self.content, &self.state, rules)?;
        if !are_any_changes_required(&mod_ops_structure) {
            return Ok(None);
        }
        let mod_op_path_root = mod_op_root_path(&self.identifier, self.node_type);
        Ok(Some(convert_mod_ops_structure_to_mod_ops(mod_op_path_root, &mod_ops_structure)))
    }
}

impl Registry {
    /// Visits the defaults nodes `items` in order.
    pub fn add_all_default_values<'a>(&mut self, items: &Vec<Located<'a>>, query: &XmlTag) -> (r:
        Result<(), Error>)
        requires
            old(self)@.wf(),
        ensures
            final(self)@.wf(),
            match r {
                Ok(_) => old(self)@.with_defaults(crate::views::view_all(items@), query@) == Ok::<
                    RegistryView,
                    ErrorView,
                >(final(self)@),
                Err(e) => old(self)@.with_defaults(crate::views::view_all(items@), query@) == Err::<
                    RegistryView,
                    ErrorView,
                >(e@),
            },
    {
        let ghost start = self@;
        let ghost all = crate::views::view_all(items@);
        proof {
            assert(all.take(0) =~= Seq::<LocatedView>::empty());
        }
        let mut i: usize = 0;
        while i < items.len()
            invariant
                i <= items.len(),
                self@.wf(),
                start == old(self)@,
                all == crate::views::view_all(items@),
                start.with_defaults(all.take(i as int), query@) == Ok::<RegistryView, ErrorView>(
                    self@,
                ),
            decreases items.len() - i,
        {
            proof {
                assert(all.take(i + 1).drop_last() =~= all.take(i as int));
                assert(all.take(i + 1).last() == items@[i as int]@);
            }
            match self.add_default_values(&items[i], query) {
                Ok(_) => {},
                Err(e) => {
                    proof {
                        assert(start.with_defaults(all.take(i + 1), query@) == Err::<
                            RegistryView,
                            ErrorView,
                        >(e@));
                        crate::registry::lemma_with_defaults_error(start, all, i + 1, query@);
                    }
                    return Err(e);
                },
            }
            i = i + 1;
        }
        proof {
            assert(all.take(i as int) =~= all);
        }
        Ok(())
    }

    /// Visits the templates `items` in order.
    pub fn add_all_templates<'a>(
        &mut self,
        items: &Vec<Located<'a>>,
        query: &XmlTag,
        excluded_templates: &Vec<String>,
    ) -> (r: Result<(), Error>)
        requires
            old(self)@.wf(),
        ensures
            final(self)@.wf(),
            match r {
                Ok(_) => old(self)@.with_templates(
                    crate::views::view_all(items@),
                    query@,
                    crate::views::view_all(excluded_templates@),
                ) == Ok::<RegistryView, ErrorView>(final(self)@),
                Err(e) => old(self)@.with_templates(
                    crate::views::view_all(items@),
                    query@,
                    crate::views::view_all(excluded_templates@),
                ) == Err::<RegistryView, ErrorView>(e@),
            },
    {
        let ghost start = self@;
        let ghost all = crate::views::view_all(items@);
        let ghost excluded = crate::views::view_all(excluded_templates@);
        proof {
            assert(all.take(0) =~= Seq::<LocatedView>::empty());
        }
        let mut i: usize = 0;
        while i < items.len()
            invariant
                i <= items.len(),
                self@.wf(),
                start == old(self)@,
                all == crate::views::view_all(items@),
                excluded == crate::views::view_all(excluded_templates@),
                start.with_templates(all.take(i as int), query@, excluded) == Ok::<
                    RegistryView,
                    ErrorView,
                >(self@),
            decreases items.len() - i,
        {
            proof {
                assert(all.take(i + 1).drop_last() =~= all.take(i as int));
                assert(all.take(i + 1).last() == items@[i as int]@);
            }
            match self.add_template(&items[i], query, excluded_templates) {
                Ok(_) => {},
                Err(e) => {
                    proof {
                        assert(start.with_templates(all.take(i + 1), query@, excluded) == Err::<
                            RegistryView,
                            ErrorView,
                        >(e@));
                        crate::registry::lemma_with_templates_error(
                            start,
                            all,
                            i + 1,
                            query@,
                            excluded,
                        );
                    }
                    return Err(e);
                },
            }
            i = i + 1;
        }
        proof {
            assert(all.take(i as int) =~= all);
        }
        Ok(())
    }

    /// Visits the instances `items` in order.
    pub fn add_all_assets<'a>(
        &mut self,
        items: &Vec<Located<'a>>,
        query: &XmlTag,
        forced_guids: &Vec<String>,
        excluded_guids: &Vec<String>,
    ) -> (r: Result<(), Error>)
        requires
            old(self)@.wf(),
        ensures
            final(self)@.wf(),
            match r {
                Ok(_) => old(self)@.with_assets(
                    crate::views::view_all(items@),
                    query@,
                    crate::views::view_all(forced_guids@),
                    crate::views::view_all(excluded_guids@),
                ) == Ok::<RegistryView, ErrorView>(final(self)@),
                Err(e) => old(self)@.with_assets(
                    crate::views::view_all(items@),
                    query@,
                    crate::views::view_all(forced_guids@),
                    crate::views::view_all(excluded_guids@),
                ) == Err::<RegistryView, ErrorView>(e@),
            },
    {
        let ghost start = self@;
        let ghost all = crate::views::view_all(items@);
        let ghost forced = crate::views::view_all(forced_guids@);
        let ghost excluded = crate::views::view_all(excluded_guids@);
        proof {
            assert(all.take(0) =~= Seq::<LocatedView>::empty());
        }
        let mut i: usize = 0;
        while i < items.len()
            invariant
                i <= items.len(),
                self@.wf(),
                start == old(self)@,
                all == crate::views::view_all(items@),
                forced == crate::views::view_all(forced_guids@),
                excluded == crate::views::view_all(excluded_guids@),
                start.with_assets(all.take(i as int), query@, forced, excluded) == Ok::<
                    RegistryView,
                    ErrorView,
                >(self@),
            decreases items.len() - i,
        {
            proof {
                assert(all.take(i + 1).drop_last() =~= all.take(i as int));
                assert(all.take(i + 1).last() == items@[i as int]@);
            }
            match self.add_asset(&items[i], query, forced_guids, excluded_guids) {
                Ok(_) => {},
                Err(e) => {
                    proof {
                        assert(start.with_assets(all.take(i + 1), query@, forced, excluded)
                            == Err::<RegistryView, ErrorView>(e@));
                        crate::registry::lemma_with_assets_error(
                            start,
                            all,
                            i + 1,
                            query@,
                            forced,
                            excluded,
                        );
                    }
                    return Err(e);
                },
            }
            i = i + 1;
        }
        proof {
            assert(all.take(i as int) =~= all);
        }
        Ok(())
    }

    /// Compiles the registry into its patch documents, one for each source
    /// file that has a record, in the order in which the files first get one.
    pub fn compile<R: ValueRules>(&self, rules: &R) -> (r: Result<Vec<PatchDocument>, Error>)
        requires
            self@.wf(),
        ensures
            match r {
                Ok(documents) => self@.patches(rules) == Ok::<Seq<PatchDocumentView>, ErrorView>(
                    crate::views::view_all(documents@),
                ) && PatchDocumentView::all_wf(crate::views::view_all(documents@)),
                Err(e) => self@.patches(rules) == Err::<Seq<PatchDocumentView>, ErrorView>(e@),
            },
    {
        let mut documents: Vec<PatchDocument> = Vec::new();
        let ghost entries = self@.entries;
        proof {
            assert(entries.take(0) =~= Seq::<EntryView>::empty());
            assert(crate::views::view_all(documents@) =~= Seq::<PatchDocumentView>::empty());
        }
        let mut i: usize = 0;
        while i < self.entries.len()
            invariant
                i <= self.entries.len(),
                self@.wf(),
                entries == self@.entries,
                RegistryView::patches_of(entries.take(i as int), rules) == Ok::<
                    Seq<PatchDocumentView>,
                    ErrorView,
                >(crate::views::view_all(documents@)),
            decreases self.entries.len() - i,
        {
            let entry = &self.entries[i];
            proof {
                assert(entries.take(i + 1).drop_last() =~= entries.take(i as int));
                assert(entries.take(i + 1).last() == entry@);
                assert(entries[i as int].wf());
            }
            match entry.compile(rules) {
                Err(e) => {
                    proof {
                        assert(RegistryView::patches_of(entries.take(i + 1), rules) == Err::<
                            Seq<PatchDocumentView>,
                            ErrorView,
                        >(e@));
                        lemma_patches_of_error(entries, i + 1, rules);
                    }
                    return Err(e);
                },
                Ok(None) => {},
                Ok(Some(records)) => {
                    file_records(&mut documents, entry.identifier.file_path.as_str(), records);
                },
            }
            i = i + 1;
        }
        proof {
            assert(entries.take(i as int) =~= entries);
            lemma_patches_wf(entries, rules);
        }
        Ok(documents)
    }
}

/// Resolves the documents of a run into the registry of their nodes.
pub fn resolve(
    query: &XmlTag,
    properties: &Vec<SourceDocument>,
    templates: &Vec<SourceDocument>,
    excluded_templates: &Vec<String>,
    assets: &Vec<SourceDocument>,
    forced_guids: &Vec<String>,
    excluded_guids: &Vec<String>,
) -> (r: Result<Registry, Error>)
    ensures
        crate::views::view_result(r) == resolved(
            query@,
            crate::views::view_all(properties@),
            crate::views::view_all(templates@),
            crate::views::view_all(excluded_templates@),
            crate::views::view_all(assets@),
            crate::views::view_all(forced_guids@),
            crate::views::view_all(excluded_guids@),
        ),
        r matches Ok(registry) ==> registry@.wf(),
{
    let mut registry = Registry::new();
    let default_values = locate_all(properties, "DefaultValues");
    registry.add_all_default_values(&default_values, query)?;
    let template_nodes = locate_all(templates, "Template");
    registry.add_all_templates(&template_nodes, query, excluded_templates)?;
    let asset_nodes = locate_all(assets, "Asset");
    registry.add_all_assets(&asset_nodes, query, forced_guids, excluded_guids)?;
    Ok(registry)
}

/// Generates the patch documents of a mod from its parsed documents: the
/// defaults, the templates and the instances are resolved in that order,
/// and the registry is compiled with the new values that `rules` give.
pub fn create_mod<R: ValueRules>(
    query: &XmlTag,
    properties: &Vec<SourceDocument>,
    templates: &Vec<SourceDocument>,
    excluded_templates: &Vec<String>,
    assets: &Vec<SourceDocument>,
    forced_guids: &Vec<String>,
    excluded_guids: &Vec<String>,
    rules: &R,
) -> (r: Result<Vec<PatchDocument>, Error>)
    ensures
        match r {
            Ok(documents) => generated(
                query@,
                crate::views::view_all(properties@),
                crate::views::view_all(templates@),
                crate::views::view_all(excluded_templates@),
                crate::views::view_all(assets@),
                crate::views::view_all(forced_guids@),
                crate::views::view_all(excluded_guids@),
                rules,
            ) == Ok::<Seq<PatchDocumentView>, ErrorView>(crate::views::view_all(documents@))
                && PatchDocumentView::all_wf(crate::views::view_all(documents@)),
            Err(e) => generated(
                query@,
                crate::views::view_all(properties@),
                crate::views::view_all(templates@),
                crate::views::view_all(excluded_templates@),
                crate::views::view_all(assets@),
                crate::views::view_all(forced_guids@),
                crate::views::view_all(excluded_guids@),
                rules,
            ) == Err::<Seq<PatchDocumentView>, ErrorView>(e@),
        },
{
    let registry = resolve(
        query,
        properties,
        templates,
        excluded_templates,
        assets,
        forced_guids,
        excluded_guids,
    )?;
    registry.compile(rules)
}

impl PatchDocument {
    /// Writes the document as its lines: the opening tag, the lines of each
    /// record indented by two blanks, and the closing tag.
    pub fn to_xml(&self) -> (r: Vec<String>)
        ensures
            crate::views::view_all(r@) == self@.xml_lines(),
    {
        let mut lines: Vec<String> = Vec::new();
        lines.push(String::from_str("<ModOps>"));
        let ghost records = crate::views::view_all(self.mod_ops@);
        let ghost head: Seq<Seq<char>> = seq!["<ModOps>"@];
        proof {
            assert(records.take(0) =~= Seq::<ModOpView>::empty());
            assert(crate::views::view_all(lines@) =~= head + PatchDocumentView::record_lines(
                records.take(0),
            ));
        }
        let mut i: usize = 0;
        while i < self.mod_ops.len()
            invariant
                i <= self.mod_ops.len(),
                records == crate::views::view_all(self.mod_ops@),
                head == seq!["<ModOps>"@],
                crate::views::view_all(lines@) == head + PatchDocumentView::record_lines(
                    records.take(i as int),
                ),
            decreases self.mod_ops.len() - i,
        {
            let record_lines = self.mod_ops[i].to_xml();
            let ghost sofar = crate::views::view_all(lines@);
            proof {
                assert(records.take(i + 1).drop_last() =~= records.take(i as int));
                assert(records.take(i + 1).last() == self.mod_ops@[i as int]@);
                assert(crate::views::view_all(record_lines@).len() == 3);
            }
            lines.push(String::from_str("  ").concat(record_lines[0].as_str()));
            lines.push(String::from_str("  ").concat(record_lines[1].as_str()));
            lines.push(String::from_str("  ").concat(record_lines[2].as_str()));
            proof {
                let added = seq![
                    "  "@ + records[i as int].xml_lines()[0],
                    "  "@ + records[i as int].xml_lines()[1],
                    "  "@ + records[i as int].xml_lines()[2],
                ];
                assert(crate::views::view_all(lines@) =~= sofar + added);
                assert(sofar + added =~= head + (PatchDocumentView::record_lines(
                    records.take(i as int),
                ) + added));
            }
            i = i + 1;
        }
        proof {
            assert(records.take(i as int) =~= records);
        }
        let ghost body = crate::views::view_all(lines@);
        lines.push(String::from_str("</ModOps>"));
        proof {
            assert(crate::views::view_all(lines@) =~= body + seq!["</ModOps>"@]);
        }
        lines
    }
}

} // verus!
