use modops::error::{Error, Failure};
use modops::generator::{file_records, mod_op_root_path, PatchDocument};
use modops::identifier::{Identifier, Kind, NodeType};
use modops::mod_ops::{
    are_any_changes_required, convert_mod_ops_structure_to_mod_ops, create_mod_ops_structure,
    ModOp, ModOpsKind, ModOpsStructure,
};
use modops::state::State;
use modops::values::{StandardRules, ValueRules};
use modops::xml_node::{XmlNode, XmlNodeData};

struct Doubling;

impl ValueRules for Doubling {
    fn new_value(&self, name: &str, current_value: &str) -> Result<String, Failure> {
        if name == "Secret" {
            Err(Failure::UnrecognizedField)
        } else {
            Ok(format!("{0}{0}", current_value))
        }
    }
}

const STATES: [State; 5] = [
    State::Included,
    State::Excluded,
    State::ExcludedByAncestor,
    State::Forced,
    State::ForcedByAncestor,
];

fn value(name: &str, present: bool, text: &str) -> XmlNode {
    XmlNode { name: name.to_string(), present, data: XmlNodeData::Leaf(text.to_string()) }
}

fn absent(name: &str) -> XmlNode {
    XmlNode { name: name.to_string(), present: false, data: XmlNodeData::Absent }
}

fn fields(name: &str, present: bool, children: Vec<XmlNode>) -> XmlNode {
    XmlNode { name: name.to_string(), present, data: XmlNodeData::Branch(children) }
}

fn op(name: &str, kind: ModOpsKind, children: Vec<ModOpsStructure>) -> ModOpsStructure {
    ModOpsStructure { name: name.to_string(), kind, children }
}

fn replace(name: &str, value: &str) -> ModOpsStructure {
    op(name, ModOpsKind::ReplaceValue(value.to_string()), vec![])
}

fn add(name: &str, value: &str) -> ModOpsStructure {
    op(name, ModOpsKind::AddValue(value.to_string()), vec![])
}

fn nothing(name: &str) -> ModOpsStructure {
    op(name, ModOpsKind::NoOp, vec![])
}

fn record(kind: &str, path: &str, value: &str) -> ModOp {
    ModOp {
        mod_op_type: kind.to_string(),
        mod_op_path: path.to_string(),
        mod_op_value: value.to_string(),
    }
}

#[test]
fn leaf_decision_table_for_present_leaves() {
    let leaf = value("CycleTime", true, "100");
    let rules = StandardRules;
    assert_eq!(
        create_mod_ops_structure(&leaf, &State::Included, &rules),
        Ok(replace("CycleTime", "20"))
    );
    assert_eq!(
        create_mod_ops_structure(&leaf, &State::Excluded, &rules),
        Ok(nothing("CycleTime"))
    );
    assert_eq!(
        create_mod_ops_structure(&leaf, &State::ExcludedByAncestor, &rules),
        Ok(nothing("CycleTime"))
    );
    assert_eq!(
        create_mod_ops_structure(&leaf, &State::Forced, &rules),
        Ok(replace("CycleTime", "20"))
    );
    assert_eq!(
        create_mod_ops_structure(&leaf, &State::ForcedByAncestor, &rules),
        Ok(replace("CycleTime", "20"))
    );
}

#[test]
fn leaf_decision_table_for_inherited_leaves() {
    let leaf = value("CycleTime", false, "100");
    let rules = StandardRules;
    assert_eq!(
        create_mod_ops_structure(&leaf, &State::Included, &rules),
        Ok(nothing("CycleTime"))
    );
    assert_eq!(
        create_mod_ops_structure(&leaf, &State::Excluded, &rules),
        Ok(add("CycleTime", "100"))
    );
    assert_eq!(
        create_mod_ops_structure(&leaf, &State::ExcludedByAncestor, &rules),
        Ok(nothing("CycleTime"))
    );
    assert_eq!(create_mod_ops_structure(&leaf, &State::Forced, &rules), Ok(add("CycleTime", "20")));
    assert_eq!(
        create_mod_ops_structure(&leaf, &State::ForcedByAncestor, &rules),
        Ok(nothing("CycleTime"))
    );
}

#[test]
fn an_absent_leaf_gets_nothing_in_any_state() {
    for state in STATES {
        assert_eq!(
            create_mod_ops_structure(&absent("CycleTime"), &state, &StandardRules),
            Ok(nothing("CycleTime"))
        );
    }
}

#[test]
fn a_new_value_is_computed_only_where_the_table_asks_for_one() {
    let unknown = value("Secret", false, "1");
    assert_eq!(
        create_mod_ops_structure(&unknown, &State::Excluded, &StandardRules),
        Ok(add("Secret", "1"))
    );
    assert_eq!(
        create_mod_ops_structure(&unknown, &State::Included, &StandardRules),
        Ok(nothing("Secret"))
    );
    assert_eq!(
        create_mod_ops_structure(&unknown, &State::Forced, &StandardRules),
        Err(Error::UnrecognizedField { name: "Secret".to_string() })
    );
    let unknown = value("Secret", true, "1");
    assert_eq!(
        create_mod_ops_structure(&unknown, &State::Excluded, &StandardRules),
        Ok(nothing("Secret"))
    );
    assert_eq!(
        create_mod_ops_structure(&unknown, &State::Included, &StandardRules),
        Err(Error::UnrecognizedField { name: "Secret".to_string() })
    );
}

#[test]
fn a_value_that_the_rule_cannot_read_is_an_error() {
    let leaf = value("CycleTime", true, "soon");
    assert_eq!(
        create_mod_ops_structure(&leaf, &State::Included, &StandardRules),
        Err(Error::InvalidValue { name: "CycleTime".to_string(), value: "soon".to_string() })
    );
}

#[test]
fn the_first_failure_in_document_order_wins() {
    let content = fields(
        "B",
        true,
        vec![
            value("CycleTime", true, "10"),
            fields("C", true, vec![value("CycleTime", true, "bad")]),
            value("Secret", true, "1"),
        ],
    );
    assert_eq!(
        create_mod_ops_structure(&content, &State::Included, &StandardRules),
        Err(Error::InvalidValue { name: "CycleTime".to_string(), value: "bad".to_string() })
    );
}

#[test]
fn injected_rules_give_the_new_values() {
    let content = fields("B", true, vec![value("x", true, "ab"), value("Secret", false, "s")]);
    assert_eq!(
        create_mod_ops_structure(&content, &State::Included, &Doubling),
        Ok(op("B", ModOpsKind::NoOp, vec![replace("x", "abab")]))
    );
    assert_eq!(
        create_mod_ops_structure(&content, &State::Forced, &Doubling),
        Err(Error::UnrecognizedField { name: "Secret".to_string() })
    );
}

#[test]
fn a_present_branch_carries_no_operation_and_keeps_surviving_fields() {
    let content = fields(
        "FactoryBase",
        true,
        vec![value("CycleTime", true, "100"), value("StorageAmount", false, "5"), absent("HeatRange")],
    );
    assert_eq!(
        create_mod_ops_structure(&content, &State::Included, &StandardRules),
        Ok(op("FactoryBase", ModOpsKind::NoOp, vec![replace("CycleTime", "20")]))
    );
    assert_eq!(
        create_mod_ops_structure(&content, &State::ExcludedByAncestor, &StandardRules),
        Ok(op("FactoryBase", ModOpsKind::NoOp, vec![]))
    );
}

#[test]
fn a_branch_that_is_not_present_is_added_as_a_container_if_a_field_survives() {
    let content = fields("FactoryBase", false, vec![value("CycleTime", false, "100")]);
    assert_eq!(
        create_mod_ops_structure(&content, &State::Excluded, &StandardRules),
        Ok(op("FactoryBase", ModOpsKind::AddNode, vec![add("CycleTime", "100")]))
    );
    assert_eq!(
        create_mod_ops_structure(&content, &State::Forced, &StandardRules),
        Ok(op("FactoryBase", ModOpsKind::AddNode, vec![add("CycleTime", "20")]))
    );
    assert_eq!(
        create_mod_ops_structure(&content, &State::Included, &StandardRules),
        Ok(op("FactoryBase", ModOpsKind::NoOp, vec![]))
    );
}

#[test]
fn pruning_reaches_through_nested_branches() {
    let content = fields(
        "A",
        true,
        vec![
            fields("B", true, vec![fields("C", false, vec![value("CycleTime", false, "1")])]),
            fields("D", false, vec![fields("E", false, vec![value("CycleTime", false, "100")])]),
        ],
    );
    assert_eq!(
        create_mod_ops_structure(&content, &State::Included, &StandardRules),
        Ok(op("A", ModOpsKind::NoOp, vec![]))
    );
    assert_eq!(
        create_mod_ops_structure(&content, &State::Excluded, &StandardRules),
        Ok(op(
            "A",
            ModOpsKind::NoOp,
            vec![
                op(
                    "B",
                    ModOpsKind::NoOp,
                    vec![op("C", ModOpsKind::AddNode, vec![add("CycleTime", "1")])]
                ),
                op(
                    "D",
                    ModOpsKind::AddNode,
                    vec![op("E", ModOpsKind::AddNode, vec![add("CycleTime", "100")])]
                ),
            ]
        ))
    );
}

#[test]
fn are_any_changes_required_looks_at_the_whole_tree() {
    assert!(!are_any_changes_required(&nothing("a")));
    assert!(are_any_changes_required(&replace("a", "1")));
    assert!(are_any_changes_required(&add("a", "1")));
    assert!(are_any_changes_required(&op("a", ModOpsKind::AddNode, vec![])));
    assert!(!are_any_changes_required(&op(
        "a",
        ModOpsKind::NoOp,
        vec![nothing("b"), op("c", ModOpsKind::NoOp, vec![nothing("d")])]
    )));
    assert!(are_any_changes_required(&op(
        "a",
        ModOpsKind::NoOp,
        vec![nothing("b"), op("c", ModOpsKind::NoOp, vec![add("d", "1")])]
    )));
}

#[test]
fn flattening_addresses_each_kind_of_operation() {
    assert_eq!(
        convert_mod_ops_structure_to_mod_ops("/root".to_string(), &replace("CycleTime", "20")),
        vec![record("Replace", "/root/CycleTime", "<CycleTime>20</CycleTime>")]
    );
    assert_eq!(
        convert_mod_ops_structure_to_mod_ops("/root".to_string(), &add("CycleTime", "20")),
        vec![record("Add", "/root", "<CycleTime>20</CycleTime>")]
    );
    assert_eq!(
        convert_mod_ops_structure_to_mod_ops(
            "/root".to_string(),
            &op("FactoryBase", ModOpsKind::AddNode, vec![])
        ),
        vec![record("Add", "/root", "<FactoryBase></FactoryBase>")]
    );
    assert_eq!(convert_mod_ops_structure_to_mod_ops("/root".to_string(), &nothing("x")), vec![]);
}

#[test]
fn flattening_goes_depth_first_with_a_field_before_the_fields_below_it() {
    let tree = op(
        "A",
        ModOpsKind::NoOp,
        vec![
            op(
                "B",
                ModOpsKind::AddNode,
                vec![add("x", "1"), op("C", ModOpsKind::AddNode, vec![add("y", "2")])],
            ),
            replace("z", "3"),
        ],
    );
    assert_eq!(
        convert_mod_ops_structure_to_mod_ops("//R".to_string(), &tree),
        vec![
            record("Add", "//R/A", "<B></B>"),
            record("Add", "//R/A/B", "<x>1</x>"),
            record("Add", "//R/A/B", "<C></C>"),
            record("Add", "//R/A/B/C", "<y>2</y>"),
            record("Replace", "//R/A/z", "<z>3</z>"),
        ]
    );
}

#[test]
fn records_create_containers_before_they_fill_them() {
    let content = fields(
        "A",
        true,
        vec![
            fields("B", false, vec![fields("C", false, vec![value("CycleTime", false, "5")])]),
            value("CycleTime", true, "10"),
        ],
    );
    let tree = create_mod_ops_structure(&content, &State::Forced, &StandardRules).unwrap();
    let records = convert_mod_ops_structure_to_mod_ops("/root".to_string(), &tree);
    let mut existing = vec!["/root".to_string(), "/root/A".to_string(), "/root/A/CycleTime".to_string()];
    for record in &records {
        assert!(existing.contains(&record.mod_op_path), "missing {}", record.mod_op_path);
        if record.mod_op_type == "Add" {
            let name = &record.mod_op_value[1..record.mod_op_value.find('>').unwrap()];
            existing.push(format!("{}/{}", record.mod_op_path, name));
        }
    }
    assert_eq!(records.len(), 4);
}

#[test]
fn an_included_inherited_leaf_and_an_empty_branch_give_no_record() {
    let leaf = value("CycleTime", false, "100");
    let tree = create_mod_ops_structure(&leaf, &State::Included, &StandardRules).unwrap();
    assert!(convert_mod_ops_structure_to_mod_ops("/r".to_string(), &tree).is_empty());
    let branch = fields("B", false, vec![value("CycleTime", false, "100"), absent("HeatRange")]);
    let tree = create_mod_ops_structure(&branch, &State::Included, &StandardRules).unwrap();
    assert!(!are_any_changes_required(&tree));
    assert!(convert_mod_ops_structure_to_mod_ops("/r".to_string(), &tree).is_empty());
}

#[test]
fn to_xml_writes_three_lines() {
    let lines = record("Replace", "/a/b", "<b>1</b>").to_xml();
    assert_eq!(
        lines,
        vec![
            "<ModOp Type=\"Replace\" Path=\"/a/b\">".to_string(),
            "  <b>1</b>".to_string(),
            "</ModOp>".to_string(),
        ]
    );
}

#[test]
fn a_patch_document_wraps_its_records() {
    let document = PatchDocument {
        path: "data\\assets.xml".to_string(),
        mod_ops: vec![record("Add", "/a", "<b></b>"), record("Replace", "/a/c", "<c>2</c>")],
    };
    assert_eq!(
        document.to_xml(),
        vec![
            "<ModOps>",
            "  <ModOp Type=\"Add\" Path=\"/a\">",
            "    <b></b>",
            "  </ModOp>",
            "  <ModOp Type=\"Replace\" Path=\"/a/c\">",
            "    <c>2</c>",
            "  </ModOp>",
            "</ModOps>",
        ]
    );
    let empty = PatchDocument { path: "x".to_string(), mod_ops: vec![] };
    assert_eq!(empty.to_xml(), vec!["<ModOps>", "</ModOps>"]);
}

#[test]
fn mod_op_root_path_by_origin() {
    let id = |kind: Kind, value: &str| Identifier {
        file_path: "f".to_string(),
        kind,
        value: value.to_string(),
    };
    assert_eq!(
        mod_op_root_path(&id(Kind::XPath, "/P[1]/DefaultValues[1]"), NodeType::DefaultValues),
        "/P[1]/DefaultValues[1]"
    );
    assert_eq!(
        mod_op_root_path(&id(Kind::XPath, "/A[1]/Asset[3]"), NodeType::Asset),
        "/A[1]/Asset[3]/Values"
    );
    assert_eq!(
        mod_op_root_path(&id(Kind::Name, "Mall"), NodeType::Template),
        "//Template[Name='Mall']/Properties"
    );
    assert_eq!(
        mod_op_root_path(&id(Kind::GUID, "24861"), NodeType::Asset),
        "//Asset[Values/Standard/GUID = '24861']/Values"
    );
}

#[test]
fn file_records_groups_by_path_in_order_of_first_appearance() {
    let mut documents: Vec<PatchDocument> = Vec::new();
    file_records(&mut documents, "a", vec![record("Add", "1", "v")]);
    file_records(&mut documents, "b", vec![record("Add", "2", "v")]);
    file_records(&mut documents, "a", vec![record("Add", "3", "v"), record("Add", "4", "v")]);
    file_records(&mut documents, "c", vec![]);
    assert_eq!(
        documents,
        vec![
            PatchDocument {
                path: "a".to_string(),
                mod_ops: vec![
                    record("Add", "1", "v"),
                    record("Add", "3", "v"),
                    record("Add", "4", "v")
                ]
            },
            PatchDocument { path: "b".to_string(), mod_ops: vec![record("Add", "2", "v")] },
            PatchDocument { path: "c".to_string(), mod_ops: vec![] },
        ]
    );
}
