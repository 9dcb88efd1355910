//! The registry of resolved nodes: for each identifier its kind of
//! document, its parent's key, its state and its content, in the order of
//! registration, and the keys under which a node is found as a parent.

use vstd::prelude::*;
use crate::content::extract_content;
use crate::content::extract_content_from_properties;
use crate::content::extract_content_from_values;
use crate::content::has_properties_child;
use crate::document::Located;
use crate::document::get_xpath;
use crate::document::LocatedView;
use crate::error::Error;
use crate::error::ErrorView;
use crate::identifier::Identifier;
use crate::identifier::IdentifierView;
use crate::identifier::Kind;
use crate::identifier::NodeType;
use crate::identifier::ParentIdentifier;
use crate::identifier::ParentIdentifierView;
use crate::resolver::contains;
use crate::resolver::create_asset_identifier;
use crate::resolver::create_asset_parent_identifier;
use crate::resolver::create_default_values_identifier;
use crate::resolver::create_template_identifier;
use crate::state::State;
use crate::xml_node::XmlNode;
use crate::xml_node::XmlNodeView;
use crate::xml_structure::XmlTag;
use crate::xml_structure::XmlTagView;

verus! {

/// What is kept of one resolved node.
#[derive(Debug, PartialEq, Eq)]
pub struct Entry {
    pub identifier: Identifier,
    pub node_type: NodeType,
    pub parent: ParentIdentifier,
    pub state: State,
    pub content: XmlNode,
}

/// The mathematical content of an [`Entry`].
pub struct EntryView {
    pub identifier: IdentifierView,
    pub node_type: NodeType,
    pub parent: ParentIdentifierView,
    pub state: State,
    pub content: XmlNodeView,
}

impl View for Entry {
    type V = EntryView;

    open spec fn view(&self) -> EntryView {
        EntryView {
            identifier: self.identifier@,
            node_type: self.node_type,
            parent: self.parent@,
            state: self.state,
            content: self.content@,
        }
    }
}

/// A key under which an entry is found as a parent.
#[derive(Debug, PartialEq, Eq)]
pub struct ParentLink {
    pub key: ParentIdentifier,
    pub index: usize,
}

/// The mathematical content of a [`ParentLink`].
pub struct ParentLinkView {
    pub key: ParentIdentifierView,
    pub index: nat,
}

impl View for ParentLink {
    type V = ParentLinkView;

    open spec fn view(&self) -> ParentLinkView {
        ParentLinkView { key: self.key@, index: self.index as nat }
    }
}

/// The resolved nodes of a run.
#[derive(Debug, PartialEq, Eq)]
pub struct Registry {
    pub entries: Vec<Entry>,
    pub identifiers_as_parent: Vec<ParentLink>,
}

/// The mathematical content of a [`Registry`].
pub struct RegistryView {
    pub entries: Seq<EntryView>,
    pub identifiers_as_parent: Seq<ParentLinkView>,
}

impl View for Registry {
    type V = RegistryView;

    open spec fn view(&self) -> RegistryView {
        RegistryView {
            entries: crate::views::view_all(self.entries@),
            identifiers_as_parent: crate::views::view_all(self.identifiers_as_parent@),
        }
    }
}

impl EntryView {
    /// An address stands for a defaults node or for an instance, never for
    /// a template, and in the content nothing is present below a field that
    /// is not.
    pub open spec fn wf(self) -> bool {
        &&& !(self.identifier.kind == Kind::XPath && self.node_type == NodeType::Template)
        &&& self.content.nested()
    }
}

impl RegistryView {
    /// The registry before anything is registered.
    pub open spec fn empty() -> RegistryView {
        RegistryView { entries: Seq::empty(), identifiers_as_parent: Seq::empty() }
    }

    /// Every link leads to an entry, every entry is well formed, no
    /// identifier is registered twice and no key is claimed twice.
    pub open spec fn wf(self) -> bool {
        &&& forall|i: int|
            0 <= i < self.identifiers_as_parent.len() ==> (
            #[trigger] self.identifiers_as_parent[i]).index < self.entries.len()
        &&& forall|i: int| 0 <= i < self.entries.len() ==> (#[trigger] self.entries[i]).wf()
        &&& forall|i: int, j: int|
            0 <= i < j < self.entries.len() ==> (#[trigger] self.entries[i]).identifier != (
            #[trigger] self.entries[j]).identifier
        &&& forall|i: int, j: int|
            0 <= i < j < self.identifiers_as_parent.len() ==> (
            #[trigger] self.identifiers_as_parent[i]).key != (
            #[trigger] self.identifiers_as_parent[j]).key
    }

    /// Whether an entry bears `identifier`.
    pub open spec fn knows(self, identifier: IdentifierView) -> bool {
        exists|i: int|
            0 <= i < self.entries.len() && (#[trigger] self.entries[i]).identifier == identifier
    }

    /// The entry of the first of `links` with `key`.
    pub open spec fn first_link(links: Seq<ParentLinkView>, key: ParentIdentifierView) -> Option<
        nat,
    >
        decreases links.len(),
    {
        if links.len() == 0 {
            None
        } else if links[0].key == key {
            Some(links[0].index)
        } else {
            RegistryView::first_link(links.drop_first(), key)
        }
    }

    /// The index of the entry that is found as a parent under `key`.
    pub open spec fn parent_index(self, key: ParentIdentifierView) -> Option<nat> {
        RegistryView::first_link(self.identifiers_as_parent, key)
    }

    /// The entry that is found as a parent under `key`.
    pub open spec fn parent_entry(self, key: ParentIdentifierView) -> Option<EntryView> {
        match self.parent_index(key) {
            Some(index) => Some(self.entries[index as int]),
            None => None,
        }
    }

    /// The content of the entry found under `key`.
    pub open spec fn parent_content(self, key: ParentIdentifierView) -> Option<XmlNodeView> {
        match self.parent_entry(key) {
            Some(entry) => Some(entry.content),
            None => None,
        }
    }

    /// The state of the entry found under `key`; `Included` where there is
    /// none.
    pub open spec fn parent_state(self, key: ParentIdentifierView) -> State {
        match self.parent_entry(key) {
            Some(entry) => entry.state,
            None => State::Included,
        }
    }

    /// The registry after `entry` is added. Where `key` is given and not yet
    /// taken, the entry is found under it from now on: the first to claim a
    /// key keeps it.
    pub open spec fn registered(
        self,
        entry: EntryView,
        key: Option<ParentIdentifierView>,
    ) -> RegistryView {
        RegistryView {
            entries: self.entries.push(entry),
            identifiers_as_parent: match key {
                Some(k) => if self.parent_index(k) is None {
                    self.identifiers_as_parent.push(
                        ParentLinkView { key: k, index: self.entries.len() },
                    )
                } else {
                    self.identifiers_as_parent
                },
                None => self.identifiers_as_parent,
            },
        }
    }

    /// The registry after a defaults node is visited.
    ///
    /// The node is passed over where its identifier is known already or
    /// where it gives no content, as a node without a child of the query's
    /// name does. More than one such child is a structural violation. Else
    /// the node is registered as included, without a parent, and claims the
    /// key of the defaults.
    pub open spec fn with_defaults_node(self, item: LocatedView, query: XmlTagView) -> Result<
        RegistryView,
        ErrorView,
    > {
        let identifier = IdentifierView {
            file_path: item.file_path,
            kind: Kind::XPath,
            value: item.address,
        };
        if self.knows(identifier) {
            Ok(self)
        } else {
            match query.extracted(item.node, item.address, None) {
                Err(e) => Err(e),
                Ok(None) => Ok(self),
                Ok(Some(content)) => Ok(
                    self.registered(
                        EntryView {
                            identifier,
                            node_type: NodeType::DefaultValues,
                            parent: ParentIdentifierView::NoParent,
                            state: State::Included,
                            content,
                        },
                        Some(ParentIdentifierView::DefaultValues),
                    ),
                ),
            }
        }
    }

    /// The registry after a template is visited.
    ///
    /// The template is passed over where it has no name, where its
    /// identifier is known already, where it has no properties or they hold
    /// no child of the query's name, or where it gives no content. More
    /// than one such child in the properties is a structural violation. Else
    /// the template is registered with the defaults as its parent and claims
    /// the key of its name.
    pub open spec fn with_template_node(
        self,
        item: LocatedView,
        query: XmlTagView,
        excluded_templates: Seq<Seq<char>>,
    ) -> Result<RegistryView, ErrorView> {
        match item.node.template_identifier(item.file_path, item.address) {
            Err(e) => Err(e),
            Ok(None) => Ok(self),
            Ok(Some(identifier)) => if self.knows(identifier) {
                Ok(self)
            } else {
                match query.defined_in_properties(item.node, item.address) {
                    Err(e) => Err(e),
                    Ok(false) => match query.doubled_in_properties(item.node, item.address) {
                        Some(e) => Err(e),
                        None => Ok(self),
                    },
                    Ok(true) => match query.extracted_from_properties(
                        item.node,
                        item.address,
                        self.parent_content(ParentIdentifierView::DefaultValues),
                    ) {
                        Err(e) => Err(e),
                        Ok(None) => Ok(self),
                        Ok(Some(content)) => Ok(
                            self.registered(
                                EntryView {
                                    identifier,
                                    node_type: NodeType::Template,
                                    parent: ParentIdentifierView::DefaultValues,
                                    state: State::resolved(
                                        false,
                                        excluded_templates.contains(identifier.value),
                                        self.parent_state(ParentIdentifierView::DefaultValues),
                                    ),
                                    content,
                                },
                                Some(ParentIdentifierView::Template(identifier.value)),
                            ),
                        ),
                    },
                }
            },
        }
    }

    /// The registry after an instance is visited.
    ///
    /// The instance is passed over where its identifier is known already,
    /// where it names no parent, where nothing is found under the key it
    /// names, or where it gives no content, as one does that defines
    /// nothing of the query below a parent without a value for it. Else it is registered under the
    /// state resolved from the rules and its parent's state, with the
    /// content extracted against its parent's content; one with a global id
    /// claims the key of that id.
    pub open spec fn with_asset_node(
        self,
        item: LocatedView,
        query: XmlTagView,
        forced_guids: Seq<Seq<char>>,
        excluded_guids: Seq<Seq<char>>,
    ) -> Result<RegistryView, ErrorView> {
        match item.node.asset_identifier(item.file_path, item.address) {
            Err(e) => Err(e),
            Ok(identifier) => if self.knows(identifier) {
                Ok(self)
            } else {
                match item.node.asset_parent(item.address) {
                    Err(e) => Err(e),
                    Ok(key) => if !(key is Template || key is GUID) {
                        Ok(self)
                    } else {
                        match self.parent_entry(key) {
                            None => Ok(self),
                            Some(parent) => match query.extracted_from_values(
                                item.node,
                                item.address,
                                Some(parent.content),
                            ) {
                                Err(e) => Err(e),
                                Ok(None) => Ok(self),
                                Ok(Some(content)) => Ok(
                                    self.registered(
                                        EntryView {
                                            identifier,
                                            node_type: NodeType::Asset,
                                            parent: key,
                                            state: State::resolved(
                                                forced_guids.contains(identifier.value),
                                                excluded_guids.contains(identifier.value),
                                                parent.state,
                                            ),
                                            content,
                                        },
                                        if identifier.kind == Kind::GUID {
                                            Some(ParentIdentifierView::GUID(identifier.value))
                                        } else {
                                            None
                                        },
                                    ),
                                ),
                            },
                        }
                    },
                }
            },
        }
    }

    /// The registry after the defaults nodes `items` are visited in order;
    /// the first error ends the visit.
    pub open spec fn with_defaults(self, items: Seq<LocatedView>, query: XmlTagView) -> Result<
        RegistryView,
        ErrorView,
    >
        decreases items.len(),
    {
        if items.len() == 0 {
            Ok(self)
        } else {
            match self.with_defaults(items.drop_last(), query) {
                Err(e) => Err(e),
                Ok(before) => before.with_defaults_node(items.last(), query),
            }
        }
    }

    /// The registry after the templates `items` are visited in order; the
    /// first error ends the visit.
    pub open spec fn with_templates(
        self,
        items: Seq<LocatedView>,
        query: XmlTagView,
        excluded_templates: Seq<Seq<char>>,
    ) -> Result<RegistryView, ErrorView>
        decreases items.len(),
    {
        if items.len() == 0 {
            Ok(self)
        } else {
            match self.with_templates(items.drop_last(), query, excluded_templates) {
                Err(e) => Err(e),
                Ok(before) => before.with_template_node(items.last(), query, excluded_templates),
            }
        }
    }

    /// The registry after the instances `items` are visited in order; the
    /// first error ends the visit.
    pub open spec fn with_assets(
        self,
        items: Seq<LocatedView>,
        query: XmlTagView,
        forced_guids: Seq<Seq<char>>,
        excluded_guids: Seq<Seq<char>>,
    ) -> Result<RegistryView, ErrorView>
        decreases items.len(),
    {
        if items.len() == 0 {
            Ok(self)
        } else {
            match self.with_assets(items.drop_last(), query, forced_guids, excluded_guids) {
                Err(e) => Err(e),
                Ok(before) => before.with_asset_node(
                    items.last(),
                    query,
                    forced_guids,
                    excluded_guids,
                ),
            }
        }
    }
}

/// The first link with a key is one of the links.
pub proof fn lemma_first_link_is_link(links: Seq<ParentLinkView>, key: ParentIdentifierView)
    requires
        RegistryView::first_link(links, key) is Some,
    ensures
        exists|j: int|
            0 <= j < links.len() && (#[trigger] links[j]).index == RegistryView::first_link(
                links,
                key,
            )->0 && links[j].key == key,
    decreases links.len(),
{
    if links[0].key == key {
        assert(links[0].index == RegistryView::first_link(links, key)->0);
    } else {
        lemma_first_link_is_link(links.drop_first(), key);
        let j = choose|j: int|
            0 <= j < links.drop_first().len() && (#[trigger] links.drop_first()[j]).index
                == RegistryView::first_link(links.drop_first(), key)->0 && links.drop_first()[j].key
                == key;
        assert(links[j + 1] == links.drop_first()[j]);
    }
}

/// Where no link is first with a key, no link bears it.
pub proof fn lemma_free_key(links: Seq<ParentLinkView>, key: ParentIdentifierView)
    requires
        RegistryView::first_link(links, key) is None,
    ensures
        forall|j: int| 0 <= j < links.len() ==> (#[trigger] links[j]).key != key,
    decreases links.len(),
{
    if links.len() > 0 {
        lemma_free_key(links.drop_first(), key);
        assert forall|j: int| 0 <= j < links.len() implies (#[trigger] links[j]).key != key by {
            if j > 0 {
                assert(links[j] == links.drop_first()[j - 1]);
            }
        }
    }
}

/// In a well-formed registry a key leads to an entry.
pub proof fn lemma_parent_index_in_range(registry: RegistryView, key: ParentIdentifierView)
    requires
        registry.wf(),
        registry.parent_index(key) is Some,
    ensures
        registry.parent_index(key)->0 < registry.entries.len(),
{
    lemma_first_link_is_link(registry.identifiers_as_parent, key);
}

/// An error met among the first defaults nodes is the outcome for all.
pub proof fn lemma_with_defaults_error(
    registry: RegistryView,
    items: Seq<LocatedView>,
    k: int,
    query: XmlTagView,
)
    requires
        0 <= k <= items.len(),
        registry.with_defaults(items.take(k), query) is Err,
    ensures
        registry.with_defaults(items, query) == registry.with_defaults(items.take(k), query),
    decreases items.len() - k,
{
    if k == items.len() {
        assert(items.take(k) =~= items);
    } else {
        assert(items.drop_last().take(k) =~= items.take(k));
        lemma_with_defaults_error(registry, items.drop_last(), k, query);
    }
}

/// An error met among the first templates is the outcome for all.
pub proof fn lemma_with_templates_error(
    registry: RegistryView,
    items: Seq<LocatedView>,
    k: int,
    query: XmlTagView,
    excluded_templates: Seq<Seq<char>>,
)
    requires
        0 <= k <= items.len(),
        registry.with_templates(items.take(k), query, excluded_templates) is Err,
    ensures
        registry.with_templates(items, query, excluded_templates) == registry.with_templates(
            items.take(k),
            query,
            excluded_templates,
        ),
    decreases items.len() - k,
{
    if k == items.len() {
        assert(items.take(k) =~= items);
    } else {
        assert(items.drop_last().take(k) =~= items.take(k));
        lemma_with_templates_error(registry, items.drop_last(), k, query, excluded_templates);
    }
}

/// An error met among the first instances is the outcome for all.
pub proof fn lemma_with_assets_error(
    registry: RegistryView,
    items: Seq<LocatedView>,
    k: int,
    query: XmlTagView,
    forced_guids: Seq<Seq<char>>,
    excluded_guids: Seq<Seq<char>>,
)
    requires
        0 <= k <= items.len(),
        registry.with_assets(items.take(k), query, forced_guids, excluded_guids) is Err,
    ensures
        registry.with_assets(items, query, forced_guids, excluded_guids) == registry.with_assets(
            items.take(k),
            query,
            forced_guids,
            excluded_guids,
        ),
    decreases items.len() - k,
{
    if k == items.len() {
        assert(items.take(k) =~= items);
    } else {
        assert(items.drop_last().take(k) =~= items.take(k));
        lemma_with_assets_error(
            registry,
            items.drop_last(),
            k,
            query,
            forced_guids,
            excluded_guids,
        );
    }
}

impl Registry {
    /// A registry without entries.
    pub fn new() -> (r: Registry)
        ensures
            r@ == RegistryView::empty(),
            r@.wf(),
    {
        let r = Registry { entries: Vec::new(), identifiers_as_parent: Vec::new() };
        proof {
            assert(r@.entries =~= Seq::<EntryView>::empty());
            assert(r@.identifiers_as_parent =~= Seq::<ParentLinkView>::empty());
        }
        r
    }

    /// Whether an entry bears `identifier`.
    pub fn knows(&self, identifier: &Identifier) -> (r: bool)
        ensures
            r == self@.knows(identifier@),
    {
        let mut i: usize = 0;
        while i < self.entries.len()
            invariant
                i <= self.entries.len(),
                forall|j: int| 0 <= j < i ==> (#[trigger] self@.entries[j]).identifier
                    != identifier@,
            decreases self.entries.len() - i,
        {
            if self.entries[i].identifier.same(identifier) {
                assert(self@.entries[i as int].identifier == identifier@);
                return true;
            }
            i = i + 1;
        }
        false
    }

    /// The index of the entry that is found as a parent under `key`.
    pub fn parent_index(&self, key: &ParentIdentifier) -> (r: Option<usize>)
        ensures
            match r {
                Some(index) => self@.parent_index(key@) == Some(index as nat),
                None => self@.parent_index(key@) is None,
            },
    {
        let ghost links = self@.identifiers_as_parent;
        proof {
            assert(links.skip(0) =~= links);
        }
        let mut i: usize = 0;
        while i < self.identifiers_as_parent.len()
            invariant
                i <= self.identifiers_as_parent.len(),
                links == self@.identifiers_as_parent,
                RegistryView::first_link(links, key@) == RegistryView::first_link(
                    links.skip(i as int),
                    key@,
                ),
            decreases self.identifiers_as_parent.len() - i,
        {
            let link = &self.identifiers_as_parent[i];
            proof {
                assert(links.skip(i as int).len() > 0);
                assert(links.skip(i as int)[0] == link@);
                assert(links.skip(i as int).drop_first() =~= links.skip(i + 1));
            }
            if link.key.same(key) {
                return Some(link.index);
            }
            i = i + 1;
        }
        proof {
            assert(links.skip(i as int).len() == 0);
        }
        None
    }

    /// Adds an entry, and lets it claim `key` where it is free.
    pub fn register(&mut self, entry: Entry, key: Option<ParentIdentifier>)
        requires
            old(self)@.wf(),
            entry@.wf(),
            !old(self)@.knows(entry@.identifier),
        ensures
            final(self)@ == old(self)@.registered(entry@, crate::views::view_opt(key)),
            final(self)@.wf(),
    {
        let index = self.entries.len();
        let ghost before = self@;
        let ghost after = before.registered(entry@, crate::views::view_opt(key));
        match key {
            Some(key) => {
                if self.parent_index(&key).is_none() {
                    let link = ParentLink { key, index };
                    proof {
                        crate::views::lemma_view_all_push(self.identifiers_as_parent@, link);
                        lemma_free_key(before.identifiers_as_parent, link@.key);
                    }
                    self.identifiers_as_parent.push(link);
                }
            },
            None => {},
        }
        proof {
            crate::views::lemma_view_all_push(self.entries@, entry);
        }
        self.entries.push(entry);
        proof {
            assert(self@.entries =~= after.entries);
            assert(self@.identifiers_as_parent =~= after.identifiers_as_parent);
        }
    }

    /// Visits a defaults node.
    pub fn add_default_values(&mut self, item: &Located, query: &XmlTag) -> (r: Result<(), Error>)
        requires
            old(self)@.wf(),
        ensures
            final(self)@.wf(),
            match r {
                Ok(_) => old(self)@.with_defaults_node(item@, query@) == Ok::<
                    RegistryView,
                    ErrorView,
                >(final(self)@),
                Err(e) => old(self)@.with_defaults_node(item@, query@) == Err::<
                    RegistryView,
                    ErrorView,
                >(e@) && final(self)@ == old(self)@,
            },
    {
        let identifier = create_default_values_identifier(
            item.file_path.as_str(),
            item.address.as_str(),
        );
        if self.knows(&identifier) {
            return Ok(());
        }
        let content = match extract_content(item.node, item.address.as_str(), query, None)? {
            Some(content) => content,
            None => {
                return Ok(());
            },
        };
        proof {
            crate::content_laws::lemma_entry_inherits(
                query@,
                item.node@,
                item.address@,
                None,
            );
        }
        self.register(
            Entry {
                identifier,
                node_type: NodeType::DefaultValues,
                parent: ParentIdentifier::NoParent,
                state: State::Included,
                content,
            },
            Some(ParentIdentifier::DefaultValues),
        );
        Ok(())
    }

    /// Visits a template.
    pub fn add_template(
        &mut self,
        item: &Located,
        query: &XmlTag,
        excluded_templates: &Vec<String>,
    ) -> (r: Result<(), Error>)
        requires
            old(self)@.wf(),
        ensures
            final(self)@.wf(),
            match r {
                Ok(_) => old(self)@.with_template_node(
                    item@,
                    query@,
                    crate::views::view_all(excluded_templates@),
                ) == Ok::<RegistryView, ErrorView>(final(self)@),
                Err(e) => old(self)@.with_template_node(
                    item@,
                    query@,
                    crate::views::view_all(excluded_templates@),
                ) == Err::<RegistryView, ErrorView>(e@) && final(self)@ == old(self)@,
            },
    {
        let identifier = match create_template_identifier(
            item.file_path.as_str(),
            item.node,
            item.address.as_str(),
        )? {
            Some(identifier) => identifier,
            None => {
                return Ok(());
            },
        };
        if self.knows(&identifier) {
            return Ok(());
        }
        if !has_properties_child(item.node, item.address.as_str(), query)? {
            if let Some(properties_node) = item.node.find_child(
                "Properties",
                item.address.as_str(),
            )? {
                let properties_address = get_xpath(item.address.as_str(), "Properties", 1);
                properties_node.find_child(query.name.as_str(), properties_address.as_str())?;
            }
            return Ok(());
        }
        let parent_index = self.parent_index(&ParentIdentifier::DefaultValues);
        proof {
            if parent_index is Some {
                lemma_parent_index_in_range(self@, ParentIdentifierView::DefaultValues);
            }
        }
        let (parent_content, parent_state) = match parent_index {
            Some(index) => {
                let parent = &self.entries[index];
                (Some(&parent.content), parent.state)
            },
            None => (None, State::Included),
        };
        let content = match extract_content_from_properties(
            item.node,
            item.address.as_str(),
            query,
            parent_content,
        )? {
            Some(content) => content,
            None => {
                return Ok(());
            },
        };
        proof {
            crate::content_laws::lemma_from_properties_inherits(
                query@,
                item.node@,
                item.address@,
                crate::views::view_opt(parent_content),
            );
        }
        let state = State::resolve(
            false,
            contains(excluded_templates, identifier.value.as_str()),
            parent_state,
        );
        let key = ParentIdentifier::Template(identifier.value.clone());
        self.register(
            Entry {
                identifier,
                node_type: NodeType::Template,
                parent: ParentIdentifier::DefaultValues,
                state,
                content,
            },
            Some(key),
        );
        Ok(())
    }

    /// Visits an instance.
    pub fn add_asset(
        &mut self,
        item: &Located,
        query: &XmlTag,
        forced_guids: &Vec<String>,
        excluded_guids: &Vec<String>,
    ) -> (r: Result<(), Error>)
        requires
            old(self)@.wf(),
        ensures
            final(self)@.wf(),
            match r {
                Ok(_) => old(self)@.with_asset_node(
                    item@,
                    query@,
                    crate::views::view_all(forced_guids@),
                    crate::views::view_all(excluded_guids@),
                ) == Ok::<RegistryView, ErrorView>(final(self)@),
                Err(e) => old(self)@.with_asset_node(
                    item@,
                    query@,
                    crate::views::view_all(forced_guids@),
                    crate::views::view_all(excluded_guids@),
                ) == Err::<RegistryView, ErrorView>(e@) && final(self)@ == old(self)@,
            },
    {
        let identifier = create_asset_identifier(
            item.file_path.as_str(),
            item.node,
            item.address.as_str(),
        )?;
        if self.knows(&identifier) {
            return Ok(());
        }
        let node_parent_identifier = create_asset_parent_identifier(
            item.node,
            item.address.as_str(),
        )?;
        match &node_parent_identifier {
            ParentIdentifier::Template(_) | ParentIdentifier::GUID(_) => {},
            _ => {
                return Ok(());
            },
        }
        let parent_index = match self.parent_index(&node_parent_identifier) {
            Some(index) => index,
            None => {
                return Ok(());
            },
        };
        proof {
            lemma_parent_index_in_range(self@, node_parent_identifier@);
        }
        let parent = &self.entries[parent_index];
        let state = State::resolve(
            contains(forced_guids, identifier.value.as_str()),
            contains(excluded_guids, identifier.value.as_str()),
            parent.state,
        );
        let content = match extract_content_from_values(
            item.node,
            item.address.as_str(),
            query,
            Some(&parent.content),
        )? {
            Some(content) => content,
            None => {
                return Ok(());
            },
        };
        proof {
            crate::content_laws::lemma_from_values_inherits(
                query@,
                item.node@,
                item.address@,
                Some(parent.content@),
            );
        }
        let key = match identifier.kind {
            Kind::GUID => Some(ParentIdentifier::GUID(identifier.value.clone())),
            _ => None,
        };
        self.register(
            Entry {
                identifier,
                node_type: NodeType::Asset,
                parent: node_parent_identifier,
                state,
                content,
            },
            key,
        );
        Ok(())
    }
}

} // verus!
