//! What holds of every compiled patch: it is minimal, and its records can
//! be applied in the order in which they are written.

use vstd::prelude::*;
use crate::error::ErrorView;
use crate::mod_ops::ModOpView;
use crate::mod_ops::ModOpsKindView;
use crate::mod_ops::ModOpsStructureView;
use crate::state::State;
use crate::values::ValueRules;
use crate::xml_node::XmlNodeDataView;
use crate::xml_node::XmlNodeView;

verus! {

impl ModOpsStructureView {
    /// Whether the tree is pruned: every tree below it holds an operation
    /// and is pruned itself.
    pub open spec fn pruned(self) -> bool
        decreases self,
    {
        ModOpsStructureView::all_pruned(self.children)
    }

    /// Whether each of `trees` holds an operation and is pruned.
    pub open spec fn all_pruned(trees: Seq<ModOpsStructureView>) -> bool
        decreases trees,
    {
        if trees.len() == 0 {
            true
        } else {
            ModOpsStructureView::all_pruned(trees.drop_last()) && trees.last().changes_required()
                && trees.last().pruned()
        }
    }
}

/// A tree without an operation gives no record.
pub proof fn lemma_no_operation_no_record(tree: ModOpsStructureView, root: Seq<char>)
    requires
        !tree.changes_required(),
    ensures
        tree.records(root) == Seq::<ModOpView>::empty(),
    decreases tree,
{
    lemma_no_operations_no_records(tree.children, crate::mod_ops::path_below(root, tree.name));
    assert(tree.records(root) =~= Seq::<ModOpView>::empty());
}

/// Trees without an operation give no record.
pub proof fn lemma_no_operations_no_records(trees: Seq<ModOpsStructureView>, root: Seq<char>)
    requires
        !ModOpsStructureView::any_changes_required(trees),
    ensures
        ModOpsStructureView::records_of(trees, root) == Seq::<ModOpView>::empty(),
    decreases trees,
{
    if trees.len() > 0 {
        lemma_no_operations_no_records(trees.drop_last(), root);
        lemma_no_operation_no_record(trees.last(), root);
        assert(ModOpsStructureView::records_of(trees, root) =~= Seq::<ModOpView>::empty());
    }
}

/// A tree with an operation gives a record.
pub proof fn lemma_operation_gives_record(tree: ModOpsStructureView, root: Seq<char>)
    requires
        tree.changes_required(),
    ensures
        tree.records(root).len() > 0,
    decreases tree,
{
    if tree.kind is NoOp {
        lemma_operations_give_records(tree.children, crate::mod_ops::path_below(root, tree.name));
    }
}

/// Trees of which one holds an operation give a record.
pub proof fn lemma_operations_give_records(trees: Seq<ModOpsStructureView>, root: Seq<char>)
    requires
        ModOpsStructureView::any_changes_required(trees),
    ensures
        ModOpsStructureView::records_of(trees, root).len() > 0,
    decreases trees,
{
    if trees.last().changes_required() {
        lemma_operation_gives_record(trees.last(), root);
    } else {
        lemma_operations_give_records(trees.drop_last(), root);
    }
}

/// The operation tree of any content is pruned: below its root it keeps no
/// tree without an operation.
pub proof fn lemma_operations_pruned<R: ValueRules>(content: XmlNodeView, state: State, rules: &R)
    requires
        content.operations(state, rules) is Ok,
    ensures
        content.operations(state, rules)->Ok_0.pruned(),
    decreases content,
{
    match content.data {
        XmlNodeDataView::Branch(fields) => {
            lemma_operations_of_pruned(fields, state, rules);
        },
        _ => {},
    }
}

/// The operation trees kept for a run of fields hold an operation each and
/// are pruned.
pub proof fn lemma_operations_of_pruned<R: ValueRules>(
    fields: Seq<XmlNodeView>,
    state: State,
    rules: &R,
)
    requires
        XmlNodeView::operations_of(fields, state, rules) is Ok,
    ensures
        ModOpsStructureView::all_pruned(XmlNodeView::operations_of(fields, state, rules)->Ok_0),
    decreases fields,
{
    if fields.len() > 0 {
        lemma_operations_of_pruned(fields.drop_last(), state, rules);
        lemma_operations_pruned(fields.last(), state, rules);
        let before = XmlNodeView::operations_of(fields.drop_last(), state, rules)->Ok_0;
        let tree = fields.last().operations(state, rules)->Ok_0;
        if tree.changes_required() {
            assert(before.push(tree).drop_last() =~= before);
        }
    }
}

/// Patch minimality.
///
/// A leaf that is included and not present gets no record. A branch of
/// which no field keeps an operation gets none either. And whatever the
/// content, its operation tree is pruned, and a tree without an operation
/// gives no record.
pub proof fn lemma_patch_minimal<R: ValueRules>(
    content: XmlNodeView,
    state: State,
    rules: &R,
    root: Seq<char>,
)
    requires
        content.operations(state, rules) is Ok,
    ensures
        content.operations(state, rules)->Ok_0.pruned(),
        !content.operations(state, rules)->Ok_0.changes_required() ==> content.operations(
            state,
            rules,
        )->Ok_0.records(root) == Seq::<ModOpView>::empty(),
        content.data is Leaf && state == State::Included && !content.present
            ==> content.operations(state, rules)->Ok_0.records(root) == Seq::<ModOpView>::empty(),
        content.data is Absent ==> content.operations(state, rules)->Ok_0.records(root) == Seq::<
            ModOpView,
        >::empty(),
        content.data is Branch && content.operations(state, rules)->Ok_0.children.len() == 0
            ==> content.operations(state, rules)->Ok_0.records(root) == Seq::<ModOpView>::empty(),
{
    let tree = content.operations(state, rules)->Ok_0;
    lemma_operations_pruned(content, state, rules);
    if !tree.changes_required() {
        lemma_no_operation_no_record(tree, root);
    }
    if content.data is Leaf && state == State::Included && !content.present {
        assert(tree.kind is NoOp);
        assert(tree.children.len() == 0);
        assert(!tree.changes_required());
    }
    if content.data is Absent {
        assert(!tree.changes_required());
    }
    if content.data is Branch && tree.children.len() == 0 {
        assert(tree.kind is NoOp);
        assert(!tree.changes_required());
    }
}

/// One record before it is written out: what it does, in which container,
/// to which field, with which value.
pub struct Step {
    /// Whether the step replaces the field; else it adds it.
    pub replaces: bool,
    /// The path of the container that holds the field.
    pub container: Seq<char>,
    /// The name of the field.
    pub name: Seq<char>,
    /// The value that the field gets; empty for a field added as a
    /// container.
    pub value: Seq<char>,
}

impl Step {
    /// The record that writes the step.
    pub open spec fn record(self) -> ModOpView {
        if self.replaces {
            ModOpView {
                mod_op_type: "Replace"@,
                mod_op_path: crate::mod_ops::path_below(self.container, self.name),
                mod_op_value: crate::mod_ops::element_text(self.name, self.value),
            }
        } else {
            ModOpView {
                mod_op_type: "Add"@,
                mod_op_path: self.container,
                mod_op_value: crate::mod_ops::element_text(self.name, self.value),
            }
        }
    }

    /// The path that must exist for the step to apply: the field itself
    /// where it is replaced, its container where it is added.
    pub open spec fn target(self) -> Seq<char> {
        if self.replaces {
            crate::mod_ops::path_below(self.container, self.name)
        } else {
            self.container
        }
    }

    /// The paths that exist after the step, given those before it: an added
    /// field exists from then on.
    pub open spec fn after(self, existing: Set<Seq<char>>) -> Set<Seq<char>> {
        if self.replaces {
            existing
        } else {
            existing.insert(crate::mod_ops::path_below(self.container, self.name))
        }
    }

    /// The records that write `steps`, in order.
    pub open spec fn records(steps: Seq<Step>) -> Seq<ModOpView>
        decreases steps.len(),
    {
        if steps.len() == 0 {
            Seq::empty()
        } else {
            Step::records(steps.drop_last()).push(steps.last().record())
        }
    }

    /// The paths that exist after `steps`, given those before them.
    pub open spec fn after_all(existing: Set<Seq<char>>, steps: Seq<Step>) -> Set<Seq<char>>
        decreases steps.len(),
    {
        if steps.len() == 0 {
            existing
        } else {
            Step::after_all(steps[0].after(existing), steps.drop_first())
        }
    }

    /// Whether `steps` can be applied in order where the paths `existing`
    /// exist: each step finds its target at the time it is applied.
    pub open spec fn applicable(existing: Set<Seq<char>>, steps: Seq<Step>) -> bool
        decreases steps.len(),
    {
        if steps.len() == 0 {
            true
        } else {
            existing.contains(steps[0].target()) && Step::applicable(
                steps[0].after(existing),
                steps.drop_first(),
            )
        }
    }
}

impl ModOpsStructureView {
    /// The step of the operation at the root of the tree, if it has one.
    pub open spec fn own_steps(self, root: Seq<char>) -> Seq<Step> {
        match self.kind {
            ModOpsKindView::ReplaceValue(value) => seq![
                Step { replaces: true, container: root, name: self.name, value },
            ],
            ModOpsKindView::AddValue(value) => seq![
                Step { replaces: false, container: root, name: self.name, value },
            ],
            ModOpsKindView::AddNode => seq![
                Step { replaces: false, container: root, name: self.name, value: Seq::empty() },
            ],
            ModOpsKindView::NoOp => Seq::empty(),
        }
    }

    /// The steps of the tree, in the order of its records.
    pub open spec fn steps(self, root: Seq<char>) -> Seq<Step>
        decreases self,
    {
        self.own_steps(root) + ModOpsStructureView::steps_of(
            self.children,
            crate::mod_ops::path_below(root, self.name),
        )
    }

    /// The steps of `trees`, one tree after the other.
    pub open spec fn steps_of(trees: Seq<ModOpsStructureView>, root: Seq<char>) -> Seq<Step>
        decreases trees,
    {
        if trees.len() == 0 {
            Seq::empty()
        } else {
            ModOpsStructureView::steps_of(trees.drop_last(), root) + trees.last().steps(root)
        }
    }
}

impl XmlNodeView {
    /// Whether nothing in this content is present.
    pub open spec fn present_free(self) -> bool
        decreases self,
    {
        !self.present && match self.data {
            XmlNodeDataView::Branch(fields) => XmlNodeView::all_present_free(fields),
            _ => true,
        }
    }

    /// Whether nothing in `fields` is present.
    pub open spec fn all_present_free(fields: Seq<XmlNodeView>) -> bool
        decreases fields,
    {
        if fields.len() == 0 {
            true
        } else {
            XmlNodeView::all_present_free(fields.drop_last()) && fields.last().present_free()
        }
    }

    /// Whether presence is nested in this content: below a field that is
    /// not present nothing is present.
    pub open spec fn nested(self) -> bool
        decreases self,
    {
        match self.data {
            XmlNodeDataView::Branch(fields) => if self.present {
                XmlNodeView::all_nested(fields)
            } else {
                XmlNodeView::all_present_free(fields)
            },
            _ => true,
        }
    }

    /// Whether presence is nested in each of `fields`.
    pub open spec fn all_nested(fields: Seq<XmlNodeView>) -> bool
        decreases fields,
    {
        if fields.len() == 0 {
            true
        } else {
            XmlNodeView::all_nested(fields.drop_last()) && fields.last().nested()
        }
    }

    /// Whether every present field of this content, which hangs below
    /// `root`, has its path among `existing`.
    pub open spec fn defined_in(self, existing: Set<Seq<char>>, root: Seq<char>) -> bool
        decreases self,
    {
        (self.present ==> existing.contains(crate::mod_ops::path_below(root, self.name)))
            && match self.data {
            XmlNodeDataView::Branch(fields) => XmlNodeView::all_defined_in(
                fields,
                existing,
                crate::mod_ops::path_below(root, self.name),
            ),
            _ => true,
        }
    }

    /// Whether every present field of `fields`, which hang below `root`,
    /// has its path among `existing`.
    pub open spec fn all_defined_in(
        fields: Seq<XmlNodeView>,
        existing: Set<Seq<char>>,
        root: Seq<char>,
    ) -> bool
        decreases fields,
    {
        if fields.len() == 0 {
            true
        } else {
            XmlNodeView::all_defined_in(fields.drop_last(), existing, root)
                && fields.last().defined_in(existing, root)
        }
    }
}

/// The records of steps written one after the other are the records of the
/// first followed by the records of the second.
pub proof fn lemma_step_records_concat(a: Seq<Step>, b: Seq<Step>)
    ensures
        Step::records(a + b) == Step::records(a) + Step::records(b),
    decreases b.len(),
{
    if b.len() == 0 {
        assert(a + b =~= a);
        assert(Step::records(a) + Step::records(b) =~= Step::records(a));
    } else {
        lemma_step_records_concat(a, b.drop_last());
        assert((a + b).drop_last() =~= a + b.drop_last());
        assert((a + b).last() == b.last());
        assert(Step::records(a + b) =~= Step::records(a) + Step::records(b));
    }
}

/// What holds of a single step.
pub proof fn lemma_single_step(existing: Set<Seq<char>>, step: Step)
    ensures
        Step::records(seq![step]) == seq![step.record()],
        Step::after_all(existing, seq![step]) == step.after(existing),
        Step::applicable(existing, seq![step]) == existing.contains(step.target()),
{
    let one = seq![step];
    assert(one.drop_last() =~= Seq::<Step>::empty());
    assert(one.drop_first() =~= Seq::<Step>::empty());
    assert(Step::records(one.drop_last()) =~= Seq::<ModOpView>::empty());
    assert(Step::records(one) =~= seq![step.record()]);
    assert(Step::after_all(step.after(existing), one.drop_first()) == step.after(existing));
    assert(Step::applicable(step.after(existing), one.drop_first()));
}

/// The records of a tree are its steps written out.
pub proof fn lemma_records_are_steps(tree: ModOpsStructureView, root: Seq<char>)
    ensures
        tree.records(root) == Step::records(tree.steps(root)),
    decreases tree,
{
    let below = crate::mod_ops::path_below(root, tree.name);
    lemma_records_of_are_steps(tree.children, below);
    lemma_step_records_concat(tree.own_steps(root), ModOpsStructureView::steps_of(tree.children, below));
    let own = tree.own_steps(root);
    if own.len() == 1 {
        lemma_single_step(Set::empty(), own[0]);
        assert(own =~= seq![own[0]]);
    }
    assert(Step::records(own) =~= tree.own_records(root));
}

/// The records of trees are their steps written out.
pub proof fn lemma_records_of_are_steps(trees: Seq<ModOpsStructureView>, root: Seq<char>)
    ensures
        ModOpsStructureView::records_of(trees, root) == Step::records(
            ModOpsStructureView::steps_of(trees, root),
        ),
    decreases trees,
{
    if trees.len() > 0 {
        lemma_records_of_are_steps(trees.drop_last(), root);
        lemma_records_are_steps(trees.last(), root);
        lemma_step_records_concat(
            ModOpsStructureView::steps_of(trees.drop_last(), root),
            trees.last().steps(root),
        );
    }
}

/// Steps never take a path away.
pub proof fn lemma_after_all_grows(existing: Set<Seq<char>>, steps: Seq<Step>)
    ensures
        existing.subset_of(Step::after_all(existing, steps)),
    decreases steps.len(),
{
    if steps.len() > 0 {
        lemma_after_all_grows(steps[0].after(existing), steps.drop_first());
    }
}

/// Steps that apply where some paths exist apply where more paths exist.
pub proof fn lemma_applicable_monotone(
    existing: Set<Seq<char>>,
    more: Set<Seq<char>>,
    steps: Seq<Step>,
)
    requires
        existing.subset_of(more),
        Step::applicable(existing, steps),
    ensures
        Step::applicable(more, steps),
    decreases steps.len(),
{
    if steps.len() > 0 {
        lemma_applicable_monotone(
            steps[0].after(existing),
            steps[0].after(more),
            steps.drop_first(),
        );
    }
}

/// Steps written one after the other apply where the first apply and the
/// second apply after the first.
pub proof fn lemma_applicable_concat(existing: Set<Seq<char>>, a: Seq<Step>, b: Seq<Step>)
    requires
        Step::applicable(existing, a),
        Step::applicable(Step::after_all(existing, a), b),
    ensures
        Step::applicable(existing, a + b),
    decreases a.len(),
{
    if a.len() == 0 {
        assert(a + b =~= b);
    } else {
        assert((a + b)[0] == a[0]);
        assert((a + b).drop_first() =~= a.drop_first() + b);
        lemma_applicable_concat(a[0].after(existing), a.drop_first(), b);
    }
}

/// Content in which nothing is present is nested, and all its present
/// fields, of which there are none, exist wherever one looks.
pub proof fn lemma_present_free(content: XmlNodeView, existing: Set<Seq<char>>, root: Seq<char>)
    requires
        content.present_free(),
    ensures
        content.nested(),
        content.defined_in(existing, root),
    decreases content,
{
    match content.data {
        XmlNodeDataView::Branch(fields) => {
            lemma_all_present_free(
                fields,
                existing,
                crate::mod_ops::path_below(root, content.name),
            );
        },
        _ => {},
    }
}

/// The same for a run of fields.
pub proof fn lemma_all_present_free(
    fields: Seq<XmlNodeView>,
    existing: Set<Seq<char>>,
    root: Seq<char>,
)
    requires
        XmlNodeView::all_present_free(fields),
    ensures
        XmlNodeView::all_nested(fields),
        XmlNodeView::all_defined_in(fields, existing, root),
    decreases fields,
{
    if fields.len() > 0 {
        lemma_all_present_free(fields.drop_last(), existing, root);
        lemma_present_free(fields.last(), existing, root);
    }
}

/// Path well-formedness.
///
/// Let the presence in a content be nested, let the content hang below
/// `root`, and let `root` and the path of each present field be among the
/// paths that exist. Then the records of the content are steps that apply
/// in the order in which they are written: a replaced field exists, and so
/// does the container of an added field, in the document or by an earlier
/// step.
pub proof fn lemma_records_apply_in_order<R: ValueRules>(
    content: XmlNodeView,
    state: State,
    rules: &R,
    existing: Set<Seq<char>>,
    root: Seq<char>,
)
    requires
        content.nested(),
        content.defined_in(existing, root),
        existing.contains(root),
        content.operations(state, rules) is Ok,
    ensures
        content.operations(state, rules)->Ok_0.records(root) == Step::records(
            content.operations(state, rules)->Ok_0.steps(root),
        ),
        Step::applicable(existing, content.operations(state, rules)->Ok_0.steps(root)),
    decreases content,
{
    let tree = content.operations(state, rules)->Ok_0;
    let below = crate::mod_ops::path_below(root, content.name);
    lemma_records_are_steps(tree, root);
    let own = tree.own_steps(root);
    match content.data {
        XmlNodeDataView::Branch(fields) => {
            let kept = XmlNodeView::operations_of(fields, state, rules)->Ok_0;
            assert(tree.children == kept);
            let inner = ModOpsStructureView::steps_of(kept, below);
            if content.present {
                lemma_fields_apply_in_order(fields, state, rules, existing, below);
                assert(own =~= Seq::<Step>::empty());
                assert(own + inner =~= inner);
            } else if kept.len() > 0 {
                let grown = existing.insert(below);
                lemma_all_present_free(fields, grown, below);
                lemma_fields_apply_in_order(fields, state, rules, grown, below);
                assert(own.len() == 1);
                assert(own =~= seq![own[0]]);
                lemma_single_step(existing, own[0]);
                lemma_applicable_concat(existing, own, inner);
            } else {
                assert(own =~= Seq::<Step>::empty());
                assert(inner =~= Seq::<Step>::empty());
                assert(own + inner =~= Seq::<Step>::empty());
            }
        },
        _ => {
            let inner = ModOpsStructureView::steps_of(tree.children, below);
            assert(inner =~= Seq::<Step>::empty());
            assert(own + inner =~= own);
            if own.len() == 1 {
                assert(own =~= seq![own[0]]);
                lemma_single_step(existing, own[0]);
            }
        },
    }
}

/// The same for the fields of a branch whose path is `below`.
pub proof fn lemma_fields_apply_in_order<R: ValueRules>(
    fields: Seq<XmlNodeView>,
    state: State,
    rules: &R,
    existing: Set<Seq<char>>,
    below: Seq<char>,
)
    requires
        XmlNodeView::all_nested(fields),
        XmlNodeView::all_defined_in(fields, existing, below),
        existing.contains(below),
        XmlNodeView::operations_of(fields, state, rules) is Ok,
    ensures
        Step::applicable(
            existing,
            ModOpsStructureView::steps_of(
                XmlNodeView::operations_of(fields, state, rules)->Ok_0,
                below,
            ),
        ),
    decreases fields,
{
    if fields.len() > 0 {
        lemma_fields_apply_in_order(fields.drop_last(), state, rules, existing, below);
        let before = XmlNodeView::operations_of(fields.drop_last(), state, rules)->Ok_0;
        let tree = fields.last().operations(state, rules)->Ok_0;
        if tree.changes_required() {
            lemma_records_apply_in_order(fields.last(), state, rules, existing, below);
            let first = ModOpsStructureView::steps_of(before, below);
            let second = tree.steps(below);
            lemma_after_all_grows(existing, first);
            lemma_applicable_monotone(existing, Step::after_all(existing, first), second);
            lemma_applicable_concat(existing, first, second);
            assert(before.push(tree).drop_last() =~= before);
        }
    }
}

} // verus!
