//! The patch compiler: from the content and the state of one identifier to
//! a pruned tree of operations, and from that tree to path-addressed
//! records.

use vstd::prelude::*;
use crate::error::Error;
use crate::error::ErrorView;
use crate::state::State;
use crate::text::concat3;
use crate::values::ValueRules;
use crate::xml_node::XmlNode;
use crate::xml_node::XmlNodeData;
use crate::xml_node::XmlNodeDataView;
use crate::xml_node::XmlNodeView;

verus! {

/// What is to be done at one field.
#[derive(Clone, Debug, PartialEq, Eq)]
pub enum ModOpsKind {
    /// Replace the field's value by the one given.
    ReplaceValue(String),
    /// Add the field with the value given.
    AddValue(String),
    /// Add the field as an empty container.
    AddNode,
    /// Nothing at this field itself.
    NoOp,
}

/// The mathematical content of a [`ModOpsKind`].
pub enum ModOpsKindView {
    ReplaceValue(Seq<char>),
    AddValue(Seq<char>),
    AddNode,
    NoOp,
}

impl View for ModOpsKind {
    type V = ModOpsKindView;

    open spec fn view(&self) -> ModOpsKindView {
        match self {
            ModOpsKind::ReplaceValue(value) => ModOpsKindView::ReplaceValue(value@),
            ModOpsKind::AddValue(value) => ModOpsKindView::AddValue(value@),
            ModOpsKind::AddNode => ModOpsKindView::AddNode,
            ModOpsKind::NoOp => ModOpsKindView::NoOp,
        }
    }
}

/// The operations of one field and of the fields below it.
#[derive(Debug, PartialEq, Eq)]
pub struct ModOpsStructure {
    pub name: String,
    pub kind: ModOpsKind,
    pub children: Vec<ModOpsStructure>,
}

/// The mathematical content of a [`ModOpsStructure`].
pub struct ModOpsStructureView {
    pub name: Seq<char>,
    pub kind: ModOpsKindView,
    pub children: Seq<ModOpsStructureView>,
}

impl View for ModOpsStructure {
    type V = ModOpsStructureView;

    open spec fn view(&self) -> ModOpsStructureView
        decreases self,
    {
        ModOpsStructureView {
            name: self.name@,
            kind: self.kind@,
            children: ModOpsStructure::views_of(self.children@),
        }
    }
}

impl ModOpsStructure {
    /// The views of a run of operation trees, in order.
    pub open spec fn views_of(trees: Seq<ModOpsStructure>) -> Seq<ModOpsStructureView>
        decreases trees,
    {
        if trees.len() == 0 {
            Seq::empty()
        } else {
            ModOpsStructure::views_of(trees.drop_last()).push(trees.last()@)
        }
    }

    /// `views_of` takes the view of each tree.
    pub proof fn lemma_views_of(trees: Seq<ModOpsStructure>)
        ensures
            ModOpsStructure::views_of(trees) == crate::views::view_all(trees),
        decreases trees.len(),
    {
        if trees.len() > 0 {
            ModOpsStructure::lemma_views_of(trees.drop_last());
            crate::views::lemma_view_all_push(trees.drop_last(), trees.last());
            assert(trees.drop_last().push(trees.last()) =~= trees);
        } else {
            assert(ModOpsStructure::views_of(trees) =~= crate::views::view_all(trees));
        }
    }
}

/// One patch record: what to do, where, and with which element.
#[derive(Clone, Debug, PartialEq, Eq)]
pub struct ModOp {
    pub mod_op_type: String,
    pub mod_op_path: String,
    pub mod_op_value: String,
}

/// The mathematical content of a [`ModOp`].
pub struct ModOpView {
    pub mod_op_type: Seq<char>,
    pub mod_op_path: Seq<char>,
    pub mod_op_value: Seq<char>,
}

impl View for ModOp {
    type V = ModOpView;

    open spec fn view(&self) -> ModOpView {
        ModOpView {
            mod_op_type: self.mod_op_type@,
            mod_op_path: self.mod_op_path@,
            mod_op_value: self.mod_op_value@,
        }
    }
}

/// The element `name` holding `value`, as text.
pub open spec fn element_text(name: Seq<char>, value: Seq<char>) -> Seq<char> {
    "<"@ + name + ">"@ + value + "</"@ + name + ">"@
}

/// The path of what lies below the field `name` under `root`.
pub open spec fn path_below(root: Seq<char>, name: Seq<char>) -> Seq<char> {
    root + "/"@ + name
}

impl ModOpView {
    /// The three lines that write the record.
    pub open spec fn xml_lines(self) -> Seq<Seq<char>> {
        seq![
            "<ModOp Type=\""@ + self.mod_op_type + "\" Path=\""@ + self.mod_op_path + "\">"@,
            "  "@ + self.mod_op_value,
            "</ModOp>"@,
        ]
    }
}

impl ModOpsStructureView {
    /// Whether the tree holds any operation.
    pub open spec fn changes_required(self) -> bool
        decreases self,
    {
        !(self.kind is NoOp) || ModOpsStructureView::any_changes_required(self.children)
    }

    /// Whether any of `trees` holds an operation.
    pub open spec fn any_changes_required(trees: Seq<ModOpsStructureView>) -> bool
        decreases trees,
    {
        if trees.len() == 0 {
            false
        } else {
            ModOpsStructureView::any_changes_required(trees.drop_last())
                || trees.last().changes_required()
        }
    }

    /// The record of the operation at the root of the tree, if it has one,
    /// for a tree that hangs below `root`.
    pub open spec fn own_records(self, root: Seq<char>) -> Seq<ModOpView> {
        match self.kind {
            ModOpsKindView::ReplaceValue(value) => seq![
                ModOpView {
                    mod_op_type: "Replace"@,
                    mod_op_path: path_below(root, self.name),
                    mod_op_value: element_text(self.name, value),
                },
            ],
            ModOpsKindView::AddValue(value) => seq![
                ModOpView {
                    mod_op_type: "Add"@,
                    mod_op_path: root,
                    mod_op_value: element_text(self.name, value),
                },
            ],
            ModOpsKindView::AddNode => seq![
                ModOpView {
                    mod_op_type: "Add"@,
                    mod_op_path: root,
                    mod_op_value: element_text(self.name, Seq::empty()),
                },
            ],
            ModOpsKindView::NoOp => Seq::empty(),
        }
    }

    /// The records of the tree, depth first, a field before the fields
    /// below it, for a tree that hangs below `root`.
    pub open spec fn records(self, root: Seq<char>) -> Seq<ModOpView>
        decreases self,
    {
        self.own_records(root) + ModOpsStructureView::records_of(
            self.children,
            path_below(root, self.name),
        )
    }

    /// The records of `trees`, one tree after the other, all below `root`.
    pub open spec fn records_of(trees: Seq<ModOpsStructureView>, root: Seq<char>) -> Seq<
        ModOpView,
    >
        decreases trees,
    {
        if trees.len() == 0 {
            Seq::empty()
        } else {
            ModOpsStructureView::records_of(trees.drop_last(), root) + trees.last().records(root)
        }
    }
}

impl XmlNodeView {
    /// The operation at a leaf that holds `value`: the decision by state and
    /// presence. A new value is computed only where the table asks for one.
    pub open spec fn leaf_operation<R: ValueRules>(
        name: Seq<char>,
        present: bool,
        value: Seq<char>,
        state: State,
        rules: &R,
    ) -> Result<ModOpsKindView, ErrorView> {
        let transforms = match state {
            State::Included => present,
            State::Excluded => false,
            State::ExcludedByAncestor => false,
            State::Forced => true,
            State::ForcedByAncestor => present,
        };
        if transforms {
            match rules.outcome(name, value) {
                Ok(new_value) => if present {
                    Ok(ModOpsKindView::ReplaceValue(new_value))
                } else {
                    Ok(ModOpsKindView::AddValue(new_value))
                },
                Err(failure) => Err(ErrorView::of_failure(failure, name, value)),
            }
        } else if state == State::Excluded && !present {
            Ok(ModOpsKindView::AddValue(value))
        } else {
            Ok(ModOpsKindView::NoOp)
        }
    }

    /// The pruned operation tree of this content under `state`.
    ///
    /// A leaf carries the operation of the decision table. A branch keeps
    /// the trees of its fields that hold an operation; it carries no
    /// operation itself, but for a branch that is not present and keeps a
    /// field: that one is added as a container.
    pub open spec fn operations<R: ValueRules>(self, state: State, rules: &R) -> Result<
        ModOpsStructureView,
        ErrorView,
    >
        decreases self,
    {
        match self.data {
            XmlNodeDataView::Branch(fields) => match XmlNodeView::operations_of(
                fields,
                state,
                rules,
            ) {
                Ok(kept) => Ok(
                    ModOpsStructureView {
                        name: self.name,
                        kind: if !self.present && kept.len() > 0 {
                            ModOpsKindView::AddNode
                        } else {
                            ModOpsKindView::NoOp
                        },
                        children: kept,
                    },
                ),
                Err(e) => Err(e),
            },
            XmlNodeDataView::Leaf(value) => match XmlNodeView::leaf_operation(
                self.name,
                self.present,
                value,
                state,
                rules,
            ) {
                Ok(kind) => Ok(
                    ModOpsStructureView { name: self.name, kind, children: Seq::empty() },
                ),
                Err(e) => Err(e),
            },
            XmlNodeDataView::Absent => Ok(
                ModOpsStructureView {
                    name: self.name,
                    kind: ModOpsKindView::NoOp,
                    children: Seq::empty(),
                },
            ),
        }
    }

    /// The operation trees of `fields` that hold an operation, in order;
    /// the first failure met ends it.
    pub open spec fn operations_of<R: ValueRules>(
        fields: Seq<XmlNodeView>,
        state: State,
        rules: &R,
    ) -> Result<Seq<ModOpsStructureView>, ErrorView>
        decreases fields,
    {
        if fields.len() == 0 {
            Ok(Seq::empty())
        } else {
            match XmlNodeView::operations_of(fields.drop_last(), state, rules) {
                Err(e) => Err(e),
                Ok(before) => match fields.last().operations(state, rules) {
                    Err(e) => Err(e),
                    Ok(tree) => if tree.changes_required() {
                        Ok(before.push(tree))
                    } else {
                        Ok(before)
                    },
                },
            }
        }
    }
}

/// A failure met among the first fields is the outcome for all of them.
pub proof fn lemma_operations_of_error<R: ValueRules>(
    fields: Seq<XmlNodeView>,
    k: int,
    state: State,
    rules: &R,
)
    requires
        0 <= k <= fields.len(),
        XmlNodeView::operations_of(fields.take(k), state, rules) is Err,
    ensures
        XmlNodeView::operations_of(fields, state, rules) == XmlNodeView::operations_of(
            fields.take(k),
            state,
            rules,
        ),
    decreases fields.len() - k,
{
    if k == fields.len() {
        assert(fields.take(k) =~= fields);
    } else {
        assert(fields.drop_last().take(k) =~= fields.take(k));
        lemma_operations_of_error(fields.drop_last(), k, state, rules);
    }
}

/// Whether the operation tree holds any operation.
pub fn are_any_changes_required(mod_ops: &ModOpsStructure) -> (r: bool)
    ensures
        r == mod_ops@.changes_required(),
    decreases mod_ops,
{
    let ghost trees = ModOpsStructure::views_of(mod_ops.children@);
    proof {
        ModOpsStructure::lemma_views_of(mod_ops.children@);
        assert(trees.take(0) =~= Seq::<ModOpsStructureView>::empty());
    }
    let mut are_changes_required_for_children = false;
    let mut i: usize = 0;
    while i < mod_ops.children.len()
        invariant
            i <= mod_ops.children.len(),
            trees == crate::views::view_all(mod_ops.children@),
            are_changes_required_for_children == ModOpsStructureView::any_changes_required(
                trees.take(i as int),
            ),
        decreases mod_ops.children.len() - i,
    {
        proof {
            assert(trees.take(i + 1).drop_last() =~= trees.take(i as int));
            assert(trees.take(i + 1).last() == mod_ops.children[i as int]@);
        }
        if are_any_changes_required(&mod_ops.children[i]) {
            are_changes_required_for_children = true;
        }
        i = i + 1;
    }
    proof {
        assert(trees.take(i as int) =~= trees);
    }
    match mod_ops.kind {
        ModOpsKind::ReplaceValue(_) | ModOpsKind::AddValue(_) | ModOpsKind::AddNode => true,
        ModOpsKind::NoOp => are_changes_required_for_children,
    }
}

/// Decides the operation at a leaf.
fn leaf_kind<R: ValueRules>(
    name: &str,
    present: bool,
    old_value: &String,
    state: &State,
    rules: &R,
) -> (r: Result<ModOpsKind, Error>)
    ensures
        crate::views::view_result(r) == XmlNodeView::leaf_operation(
            name@,
            present,
            old_value@,
            *state,
            rules,
        ),
{
    match (*state, present) {
        (State::Included, true) | (State::Forced, true) | (State::ForcedByAncestor, true) => {
            match rules.new_value(name, old_value.as_str()) {
                Ok(value) => Ok(ModOpsKind::ReplaceValue(value)),
                Err(failure) => Err(Error::of_failure(failure, name, old_value.as_str())),
            }
        },
        (State::Forced, false) => {
            match rules.new_value(name, old_value.as_str()) {
                Ok(value) => Ok(ModOpsKind::AddValue(value)),
                Err(failure) => Err(Error::of_failure(failure, name, old_value.as_str())),
            }
        },
        (State::Excluded, false) => Ok(ModOpsKind::AddValue(old_value.clone())),
        (State::Included, false) => Ok(ModOpsKind::NoOp),
        (State::Excluded, true) => Ok(ModOpsKind::NoOp),
        (State::ExcludedByAncestor, true) => Ok(ModOpsKind::NoOp),
        (State::ExcludedByAncestor, false) => Ok(ModOpsKind::NoOp),
        (State::ForcedByAncestor, false) => Ok(ModOpsKind::NoOp),
    }
}

/// Compiles the content of one identifier under its state into the pruned
/// tree of operations, taking new values from `rules`.
pub fn create_mod_ops_structure<R: ValueRules>(content: &XmlNode, state: &State, rules: &R) -> (r:
    Result<ModOpsStructure, Error>)
    ensures
        crate::views::view_result(r) == content@.operations(*state, rules),
    decreases content,
{
    match &content.data {
        XmlNodeData::Branch(children) => {
            let ghost fields = XmlNode::views_of(children@);
            proof {
                XmlNode::lemma_views_of(children@);
                assert(fields.take(0) =~= Seq::<XmlNodeView>::empty());
            }
            let mut child_mod_ops: Vec<ModOpsStructure> = Vec::new();
            let mut i: usize = 0;
            while i < children.len()
                invariant
                    i <= children.len(),
                    content.data == XmlNodeData::Branch(*children),
                    content@.data == XmlNodeDataView::Branch(fields),
                    fields == crate::views::view_all(children@),
                    XmlNodeView::operations_of(fields.take(i as int), *state, rules) == Ok::<
                        Seq<ModOpsStructureView>,
                        ErrorView,
                    >(ModOpsStructure::views_of(child_mod_ops@)),
                decreases children.len() - i,
            {
                proof {
                    assert(fields.take(i + 1).drop_last() =~= fields.take(i as int));
                    assert(fields.take(i + 1).last() == children[i as int]@);
                }
                match create_mod_ops_structure(&children[i], state, rules) {
                    Err(e) => {
                        proof {
                            assert(XmlNodeView::operations_of(fields.take(i + 1), *state, rules)
                                == Err::<Seq<ModOpsStructureView>, ErrorView>(e@));
                            lemma_operations_of_error(fields, i + 1, *state, rules);
                        }
                        return Err(e);
                    },
                    Ok(mod_ops) => {
                        if are_any_changes_required(&mod_ops) {
                            proof {
                                assert(child_mod_ops@.push(mod_ops).drop_last()
                                    =~= child_mod_ops@);
                            }
                            child_mod_ops.push(mod_ops);
                        }
                    },
                }
                i = i + 1;
            }
            proof {
                assert(fields.take(i as int) =~= fields);
                ModOpsStructure::lemma_views_of(child_mod_ops@);
            }
            let kind = if !content.present && child_mod_ops.len() > 0 {
                ModOpsKind::AddNode
            } else {
                ModOpsKind::NoOp
            };
            Ok(ModOpsStructure { name: content.name.clone(), kind, children: child_mod_ops })
        },
        XmlNodeData::Leaf(old_value) => {
            let kind = leaf_kind(content.name.as_str(), content.present, old_value, state, rules)?;
            let r = ModOpsStructure { name: content.name.clone(), kind, children: Vec::new() };
            proof {
                assert(r@.children =~= Seq::<ModOpsStructureView>::empty());
            }
            Ok(r)
        },
        XmlNodeData::Absent => {
            let r = ModOpsStructure {
                name: content.name.clone(),
                kind: ModOpsKind::NoOp,
                children: Vec::new(),
            };
            proof {
                assert(r@.children =~= Seq::<ModOpsStructureView>::empty());
            }
            Ok(r)
        },
    }
}

/// The element `name` holding `value`, written out.
fn element(name: &str, value: &str) -> (r: String)
    ensures
        r@ == element_text(name@, value@),
{
    let open = concat3("<", name, ">");
    let close = concat3("</", name, ">");
    let r = open.concat(value).concat(close.as_str());
    assert(r@ =~= element_text(name@, value@));
    r
}

/// Flattens an operation tree that hangs below `mod_op_root_path` into its
/// records: depth first, each field before the fields below it.
pub fn convert_mod_ops_structure_to_mod_ops(
    mod_op_root_path: String,
    mod_ops_structure: &ModOpsStructure,
) -> (r: Vec<ModOp>)
    ensures
        crate::views::view_all(r@) == mod_ops_structure@.records(mod_op_root_path@),
    decreases mod_ops_structure,
{
    let mut mod_ops: Vec<ModOp> = Vec::new();
    let name = mod_ops_structure.name.as_str();
    let below = concat3(mod_op_root_path.as_str(), "/", name);
    match &mod_ops_structure.kind {
        ModOpsKind::ReplaceValue(value) => {
            mod_ops.push(
                ModOp {
                    mod_op_type: String::from_str("Replace"),
                    mod_op_path: below.clone(),
                    mod_op_value: element(name, value.as_str()),
                },
            );
        },
        ModOpsKind::AddValue(value) => {
            mod_ops.push(
                ModOp {
                    mod_op_type: String::from_str("Add"),
                    mod_op_path: mod_op_root_path.clone(),
                    mod_op_value: element(name, value.as_str()),
                },
            );
        },
        ModOpsKind::AddNode => {
            mod_ops.push(
                ModOp {
                    mod_op_type: String::from_str("Add"),
                    mod_op_path: mod_op_root_path.clone(),
                    mod_op_value: element(name, ""),
                },
            );
        },
        ModOpsKind::NoOp => {},
    }
    let ghost own = mod_ops_structure@.own_records(mod_op_root_path@);
    let ghost trees = ModOpsStructure::views_of(mod_ops_structure.children@);
    proof {
        reveal_strlit("");
        assert(""@ =~= Seq::<char>::empty());
        assert(crate::views::view_all(mod_ops@) =~= own);
        ModOpsStructure::lemma_views_of(mod_ops_structure.children@);
    }
    let mut i: usize = 0;
    while i < mod_ops_structure.children.len()
        invariant
            i <= mod_ops_structure.children.len(),
            below@ == path_below(mod_op_root_path@, mod_ops_structure@.name),
            trees == crate::views::view_all(mod_ops_structure.children@),
            crate::views::view_all(mod_ops@) == own + ModOpsStructureView::records_of(
                trees.take(i as int),
                below@,
            ),
        decreases mod_ops_structure.children.len() - i,
    {
        let child = &mod_ops_structure.children[i];
        let mut more = convert_mod_ops_structure_to_mod_ops(below.clone(), child);
        proof {
            assert(trees.take(i + 1).drop_last() =~= trees.take(i as int));
            assert(trees.take(i + 1).last() == child@);
            assert(crate::views::view_all(mod_ops@ + more@) =~= crate::views::view_all(mod_ops@)
                + crate::views::view_all(more@));
            assert(own + ModOpsStructureView::records_of(trees.take(i as int), below@)
                + child@.records(below@) =~= own + (ModOpsStructureView::records_of(
                trees.take(i as int),
                below@,
            ) + child@.records(below@)));
        }
        mod_ops.append(&mut more);
        i = i + 1;
    }
    proof {
        assert(trees.take(i as int) =~= trees);
    }
    mod_ops
}

impl ModOp {
    /// Writes the record as the lines of its element.
    pub fn to_xml(&self) -> (r: Vec<String>)
        ensures
            crate::views::view_all(r@) == self@.xml_lines(),
    {
        let mut xml: Vec<String> = Vec::new();
        let head = concat3("<ModOp Type=\"", self.mod_op_type.as_str(), "\" Path=\"");
        let open = head.concat(self.mod_op_path.as_str()).concat("\">");
        xml.push(open);
        xml.push(String::from_str("  ").concat(self.mod_op_value.as_str()));
        xml.push(String::from_str("</ModOp>"));
        proof {
            assert(crate::views::view_all(xml@) =~= self@.xml_lines());
        }
        xml
    }
}

} // verus!
