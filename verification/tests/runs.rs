use modops::document::{DocNode, SourceDocument};
use modops::error::Error;
use modops::generator::{create_mod, resolve, PatchDocument};
use modops::identifier::{Identifier, Kind, NodeType, ParentIdentifier};
use modops::mod_ops::ModOp;
use modops::registry::Registry;
use modops::state::State;
use modops::values::StandardRules;
use modops::xml_node::{XmlNode, XmlNodeData};
use modops::xml_structure::{Content, XmlTag};

fn convert(node: roxmltree::Node) -> DocNode {
    DocNode {
        name: node.tag_name().name().to_string(),
        text: node.text().map(|text| text.to_string()),
        children: node.children().map(convert).collect(),
    }
}

fn document(path: &str, xml: &str) -> SourceDocument {
    SourceDocument {
        path: path.to_string(),
        root: convert(roxmltree::Document::parse(xml).unwrap().root()),
    }
}

fn query() -> XmlTag {
    XmlTag {
        name: "FactoryBase".to_string(),
        content: Content::Branch(vec![XmlTag {
            name: "CycleTime".to_string(),
            content: Content::Leaf,
        }]),
    }
}

fn strings(items: &[&str]) -> Vec<String> {
    items.iter().map(|item| item.to_string()).collect()
}

fn record(kind: &str, path: &str, value: &str) -> ModOp {
    ModOp {
        mod_op_type: kind.to_string(),
        mod_op_path: path.to_string(),
        mod_op_value: value.to_string(),
    }
}

fn cycle_time(branch_present: bool, leaf_present: bool, text: &str) -> XmlNode {
    XmlNode {
        name: "FactoryBase".to_string(),
        present: branch_present,
        data: XmlNodeData::Branch(vec![XmlNode {
            name: "CycleTime".to_string(),
            present: leaf_present,
            data: XmlNodeData::Leaf(text.to_string()),
        }]),
    }
}

const DEFAULTS: &str = "<Properties><DefaultValues><FactoryBase><CycleTime>100</CycleTime>\
    </FactoryBase></DefaultValues></Properties>";

const TEMPLATES: &str = "<Templates>\
    <Template><Name>Factory</Name><Properties><FactoryBase/></Properties></Template>\
    <Template><Name>Mall</Name><Properties><FactoryBase/></Properties></Template>\
    <Template><Name>Fast</Name><Properties><FactoryBase><CycleTime>30</CycleTime></FactoryBase>\
    </Properties></Template>\
    <Template><Name>Unrelated</Name><Properties><Building/></Properties></Template>\
    <Template><Properties><FactoryBase/></Properties></Template>\
    </Templates>";

struct Run {
    properties: Vec<SourceDocument>,
    templates: Vec<SourceDocument>,
    assets: Vec<SourceDocument>,
    excluded_templates: Vec<String>,
    forced_guids: Vec<String>,
    excluded_guids: Vec<String>,
}

impl Run {
    fn new(assets: &str) -> Run {
        Run {
            properties: vec![document("properties.xml", DEFAULTS)],
            templates: vec![document("templates.xml", TEMPLATES)],
            assets: vec![document("assets.xml", assets)],
            excluded_templates: vec![],
            forced_guids: vec![],
            excluded_guids: vec![],
        }
    }

    fn resolve(&self) -> Result<Registry, Error> {
        resolve(
            &query(),
            &self.properties,
            &self.templates,
            &self.excluded_templates,
            &self.assets,
            &self.forced_guids,
            &self.excluded_guids,
        )
    }

    fn create(&self) -> Result<Vec<PatchDocument>, Error> {
        create_mod(
            &query(),
            &self.properties,
            &self.templates,
            &self.excluded_templates,
            &self.assets,
            &self.forced_guids,
            &self.excluded_guids,
            &StandardRules,
        )
    }
}

fn defaults_document() -> PatchDocument {
    PatchDocument {
        path: "properties.xml".to_string(),
        mod_ops: vec![record(
            "Replace",
            "/Properties[1]/DefaultValues[1]/FactoryBase/CycleTime",
            "<CycleTime>20</CycleTime>",
        )],
    }
}

fn fast_template_document(extra: Vec<ModOp>) -> PatchDocument {
    let mut mod_ops = extra;
    mod_ops.push(record(
        "Replace",
        "//Template[Name='Fast']/Properties/FactoryBase/CycleTime",
        "<CycleTime>6</CycleTime>",
    ));
    PatchDocument { path: "templates.xml".to_string(), mod_ops }
}

#[test]
fn scenario_without_overrides_gives_no_record_for_template_and_instance() {
    let run = Run::new(
        "<Assets><Asset><Template>Factory</Template><Values><Standard><GUID>1</GUID></Standard>\
         </Values></Asset></Assets>",
    );
    let registry = run.resolve().unwrap();
    let states: Vec<State> = registry.entries.iter().map(|entry| entry.state).collect();
    assert!(states.iter().all(|state| *state == State::Included));
    let factory = &registry.entries[1];
    assert_eq!(factory.identifier.value, "Factory");
    assert_eq!(factory.content, cycle_time(true, false, "100"));
    assert_eq!(factory.compile(&StandardRules), Ok(None));
    let instance = registry.entries.last().unwrap();
    assert_eq!(instance.node_type, NodeType::Asset);
    assert_eq!(instance.content, cycle_time(false, false, "100"));
    assert_eq!(instance.compile(&StandardRules), Ok(None));
    assert_eq!(run.create(), Ok(vec![defaults_document(), fast_template_document(vec![])]));
}

#[test]
fn scenario_excluded_template_reasserts_the_inherited_value() {
    let mut run = Run::new("<Assets/>");
    run.excluded_templates = strings(&["Mall"]);
    let registry = run.resolve().unwrap();
    let mall = &registry.entries[2];
    assert_eq!(
        mall.identifier,
        Identifier {
            file_path: "templates.xml".to_string(),
            kind: Kind::Name,
            value: "Mall".to_string()
        }
    );
    assert_eq!(mall.state, State::Excluded);
    assert_eq!(mall.content, cycle_time(true, false, "100"));
    assert_eq!(
        mall.compile(&StandardRules),
        Ok(Some(vec![record(
            "Add",
            "//Template[Name='Mall']/Properties/FactoryBase",
            "<CycleTime>100</CycleTime>"
        )]))
    );
    assert_eq!(
        run.create(),
        Ok(vec![
            defaults_document(),
            fast_template_document(vec![record(
                "Add",
                "//Template[Name='Mall']/Properties/FactoryBase",
                "<CycleTime>100</CycleTime>"
            )])
        ])
    );
}

#[test]
fn scenario_forced_instance_replaces_its_own_value() {
    let mut run = Run::new(
        "<Assets><Asset><Template>Mall</Template><Values><Standard><GUID>24861</GUID></Standard>\
         <FactoryBase><CycleTime>50</CycleTime></FactoryBase></Values></Asset></Assets>",
    );
    run.excluded_templates = strings(&["Mall"]);
    run.forced_guids = strings(&["24861"]);
    let registry = run.resolve().unwrap();
    let instance = registry.entries.last().unwrap();
    assert_eq!(instance.state, State::Forced);
    assert_eq!(instance.parent, ParentIdentifier::Template("Mall".to_string()));
    assert_eq!(instance.content, cycle_time(true, true, "50"));
    assert_eq!(
        instance.compile(&StandardRules),
        Ok(Some(vec![record(
            "Replace",
            "//Asset[Values/Standard/GUID = '24861']/Values/FactoryBase/CycleTime",
            "<CycleTime>10</CycleTime>"
        )]))
    );
}

#[test]
fn scenario_instance_known_by_its_address_is_addressed_below_its_values() {
    let run = Run::new(
        "<Assets><Asset><Template>Factory</Template><Values>\
         <FactoryBase><CycleTime>50</CycleTime></FactoryBase></Values></Asset></Assets>",
    );
    let documents = run.create().unwrap();
    assert_eq!(
        documents.last().unwrap(),
        &PatchDocument {
            path: "assets.xml".to_string(),
            mod_ops: vec![record(
                "Replace",
                "/Assets[1]/Asset[1]/Values/FactoryBase/CycleTime",
                "<CycleTime>10</CycleTime>"
            )]
        }
    );
}

#[test]
fn scenario_instance_without_guid_and_parent_is_skipped() {
    let with_orphan = Run::new(
        "<Assets><Asset><Values><FactoryBase><CycleTime>50</CycleTime></FactoryBase></Values>\
         </Asset><Asset/></Assets>",
    );
    let without = Run::new("<Assets/>");
    let registry = with_orphan.resolve().unwrap();
    assert_eq!(registry, without.resolve().unwrap());
    assert!(registry.entries.iter().all(|entry| entry.node_type != NodeType::Asset));
    assert_eq!(with_orphan.create(), without.create());
    assert!(with_orphan.create().unwrap().iter().all(|document| document.path != "assets.xml"));
}

#[test]
fn registration_keeps_templates_that_define_the_root_field_only() {
    let registry = Run::new("<Assets/>").resolve().unwrap();
    let names: Vec<&str> =
        registry.entries.iter().map(|entry| entry.identifier.value.as_str()).collect();
    assert_eq!(names, vec!["/Properties[1]/DefaultValues[1]", "Factory", "Mall", "Fast"]);
    let kinds: Vec<NodeType> = registry.entries.iter().map(|entry| entry.node_type).collect();
    assert_eq!(
        kinds,
        vec![NodeType::DefaultValues, NodeType::Template, NodeType::Template, NodeType::Template]
    );
    assert_eq!(registry.entries[0].parent, ParentIdentifier::NoParent);
    assert_eq!(registry.entries[1].parent, ParentIdentifier::DefaultValues);
    assert_eq!(registry.entries[3].content, cycle_time(true, true, "30"));
}

#[test]
fn an_instance_inherits_along_the_whole_chain() {
    let run = Run::new(
        "<Assets>\
         <Asset><Template>Fast</Template><Values><Standard><GUID>1</GUID></Standard></Values></Asset>\
         <Asset><BaseAssetGUID>1</BaseAssetGUID><Values><Standard><GUID>2</GUID></Standard>\
         <FactoryBase/></Values></Asset>\
         <Asset><ScenarioBaseAssetGUID>2</ScenarioBaseAssetGUID><Values/></Asset>\
         <Asset><Template>Factory</Template><Values><Standard><GUID>4</GUID></Standard></Values></Asset>\
         </Assets>",
    );
    let registry = run.resolve().unwrap();
    let assets: Vec<_> =
        registry.entries.iter().filter(|entry| entry.node_type == NodeType::Asset).collect();
    assert_eq!(assets.len(), 4);
    assert_eq!(assets[0].content, cycle_time(false, false, "30"));
    assert_eq!(assets[1].content, cycle_time(true, false, "30"));
    assert_eq!(assets[2].content, cycle_time(false, false, "30"));
    assert_eq!(assets[2].identifier.kind, Kind::XPath);
    assert_eq!(assets[2].identifier.value, "/Assets[1]/Asset[3]");
    assert_eq!(assets[2].parent, ParentIdentifier::GUID("2".to_string()));
    assert_eq!(assets[3].content, cycle_time(false, false, "100"));
}

#[test]
fn states_are_handed_down_unless_a_list_names_the_instance() {
    let mut run = Run::new(
        "<Assets>\
         <Asset><Template>Mall</Template><Values><Standard><GUID>1</GUID></Standard></Values></Asset>\
         <Asset><BaseAssetGUID>1</BaseAssetGUID><Values><Standard><GUID>2</GUID></Standard></Values></Asset>\
         <Asset><BaseAssetGUID>2</BaseAssetGUID><Values><Standard><GUID>3</GUID></Standard></Values></Asset>\
         <Asset><BaseAssetGUID>3</BaseAssetGUID><Values><Standard><GUID>4</GUID></Standard></Values></Asset>\
         <Asset><BaseAssetGUID>4</BaseAssetGUID><Values><Standard><GUID>5</GUID></Standard></Values></Asset>\
         <Asset><BaseAssetGUID>5</BaseAssetGUID><Values><Standard><GUID>6</GUID></Standard></Values></Asset>\
         <Asset><Template>Factory</Template><Values><Standard><GUID>7</GUID></Standard></Values></Asset>\
         <Asset><BaseAssetGUID>3</BaseAssetGUID><Values><Standard><GUID>8</GUID></Standard></Values></Asset>\
         </Assets>",
    );
    run.excluded_templates = strings(&["Mall"]);
    run.forced_guids = strings(&["3", "8"]);
    run.excluded_guids = strings(&["5", "8"]);
    let registry = run.resolve().unwrap();
    let states: Vec<(&str, State)> = registry
        .entries
        .iter()
        .filter(|entry| entry.node_type == NodeType::Asset)
        .map(|entry| (entry.identifier.value.as_str(), entry.state))
        .collect();
    assert_eq!(
        states,
        vec![
            ("1", State::ExcludedByAncestor),
            ("2", State::ExcludedByAncestor),
            ("3", State::Forced),
            ("4", State::ForcedByAncestor),
            ("5", State::Excluded),
            ("6", State::ExcludedByAncestor),
            ("7", State::Included),
            ("8", State::Forced),
        ]
    );
}

#[test]
fn state_resolution_table() {
    for parent in [
        State::Included,
        State::Excluded,
        State::ExcludedByAncestor,
        State::Forced,
        State::ForcedByAncestor,
    ] {
        assert_eq!(State::resolve(true, true, parent), State::Forced);
        assert_eq!(State::resolve(true, false, parent), State::Forced);
        assert_eq!(State::resolve(false, true, parent), State::Excluded);
    }
    assert_eq!(State::resolve(false, false, State::Included), State::Included);
    assert_eq!(State::resolve(false, false, State::Excluded), State::ExcludedByAncestor);
    assert_eq!(State::resolve(false, false, State::ExcludedByAncestor), State::ExcludedByAncestor);
    assert_eq!(State::resolve(false, false, State::Forced), State::ForcedByAncestor);
    assert_eq!(State::resolve(false, false, State::ForcedByAncestor), State::ForcedByAncestor);
}

#[test]
fn an_excluded_instance_without_the_field_gets_container_and_value() {
    let mut run = Run::new(
        "<Assets><Asset><Template>Factory</Template><Values><Standard><GUID>24845</GUID>\
         </Standard></Values></Asset></Assets>",
    );
    run.excluded_guids = strings(&["24845"]);
    let documents = run.create().unwrap();
    assert_eq!(
        documents.last().unwrap(),
        &PatchDocument {
            path: "assets.xml".to_string(),
            mod_ops: vec![
                record(
                    "Add",
                    "//Asset[Values/Standard/GUID = '24845']/Values",
                    "<FactoryBase></FactoryBase>"
                ),
                record(
                    "Add",
                    "//Asset[Values/Standard/GUID = '24845']/Values/FactoryBase",
                    "<CycleTime>100</CycleTime>"
                ),
            ]
        }
    );
}

#[test]
fn an_instance_whose_parent_is_not_registered_is_skipped() {
    let run = Run::new(
        "<Assets>\
         <Asset><BaseAssetGUID>2</BaseAssetGUID><Values><Standard><GUID>1</GUID></Standard>\
         <FactoryBase><CycleTime>5</CycleTime></FactoryBase></Values></Asset>\
         <Asset><Template>Unrelated</Template><Values><Standard><GUID>2</GUID></Standard></Values></Asset>\
         <Asset><Template>Nowhere</Template></Asset>\
         </Assets>",
    );
    let registry = run.resolve().unwrap();
    assert!(registry.entries.iter().all(|entry| entry.node_type != NodeType::Asset));
}

#[test]
fn the_first_to_claim_a_key_keeps_it() {
    let mut run = Run::new(
        "<Assets>\
         <Asset><Template>Mall</Template><Values><Standard><GUID>9</GUID></Standard>\
         <FactoryBase><CycleTime>10</CycleTime></FactoryBase></Values></Asset>\
         <Asset><BaseAssetGUID>9</BaseAssetGUID><Values/></Asset>\
         </Assets>",
    );
    run.assets.insert(
        1,
        document(
            "other\\assets.xml",
            "<Assets><Asset><Template>Factory</Template><Values><Standard><GUID>9</GUID></Standard>\
             <FactoryBase><CycleTime>77</CycleTime></FactoryBase></Values></Asset></Assets>",
        ),
    );
    run.assets.swap(0, 1);
    run.templates.push(document(
        "more\\templates.xml",
        "<Templates><Template><Name>Mall</Name><Properties><FactoryBase><CycleTime>1</CycleTime>\
         </FactoryBase></Properties></Template></Templates>",
    ));
    let registry = run.resolve().unwrap();
    let child = registry.entries.last().unwrap();
    assert_eq!(child.parent, ParentIdentifier::GUID("9".to_string()));
    assert_eq!(child.content, cycle_time(false, false, "77"));
    let nines: Vec<&str> = registry
        .entries
        .iter()
        .filter(|entry| entry.identifier.value == "9")
        .map(|entry| entry.identifier.file_path.as_str())
        .collect();
    assert_eq!(nines, vec!["other\\assets.xml", "assets.xml"]);
    let second_nine = &registry.entries[registry.entries.len() - 2];
    assert_eq!(second_nine.content, cycle_time(true, true, "10"));
    assert_eq!(second_nine.parent, ParentIdentifier::Template("Mall".to_string()));
    assert_eq!(
        registry.parent_index(&ParentIdentifier::Template("Mall".to_string())),
        Some(2)
    );
}

#[test]
fn an_identifier_is_registered_once() {
    let mut run = Run::new(
        "<Assets>\
         <Asset><Template>Factory</Template><Values><Standard><GUID>1</GUID></Standard>\
         <FactoryBase><CycleTime>10</CycleTime></FactoryBase></Values></Asset>\
         <Asset><Template>Factory</Template><Values><Standard><GUID>1</GUID></Standard>\
         <FactoryBase><CycleTime>20</CycleTime></FactoryBase><FactoryBase/></Values></Asset>\
         </Assets>",
    );
    run.templates = vec![document(
        "templates.xml",
        "<Templates>\
         <Template><Name>Factory</Name><Properties><FactoryBase/></Properties></Template>\
         <Template><Name>Factory</Name><Properties><FactoryBase><CycleTime>1</CycleTime>\
         </FactoryBase></Properties></Template></Templates>",
    )];
    let registry = run.resolve().unwrap();
    assert_eq!(registry.entries.len(), 3);
    assert_eq!(registry.entries[1].content, cycle_time(true, false, "100"));
    assert_eq!(registry.entries[2].content, cycle_time(true, true, "10"));
}

#[test]
fn two_runs_give_the_same_documents() {
    let mut run = Run::new(
        "<Assets><Asset><Template>Mall</Template><Values><Standard><GUID>24861</GUID></Standard>\
         <FactoryBase><CycleTime>50</CycleTime></FactoryBase></Values></Asset>\
         <Asset><BaseAssetGUID>24861</BaseAssetGUID><Values/></Asset></Assets>",
    );
    run.excluded_templates = strings(&["Mall"]);
    run.excluded_guids = strings(&["24861"]);
    let first = run.create().unwrap();
    let second = run.create().unwrap();
    assert_eq!(first, second);
    let lines = |documents: &Vec<PatchDocument>| -> Vec<Vec<String>> {
        documents.iter().map(|document| document.to_xml()).collect()
    };
    assert_eq!(lines(&first), lines(&second));
    assert_eq!(first.len(), 2);
}

#[test]
fn presence_does_not_depend_on_the_parent() {
    let assets = "<Assets><Asset><Template>T</Template><Values><Standard><GUID>1</GUID></Standard>\
         <FactoryBase/></Values></Asset></Assets>";
    let mut with_value = Run::new(assets);
    with_value.templates = vec![document(
        "templates.xml",
        "<Templates><Template><Name>T</Name><Properties><FactoryBase><CycleTime>3</CycleTime>\
         </FactoryBase></Properties></Template></Templates>",
    )];
    let mut without_value = Run::new(assets);
    without_value.properties = vec![document(
        "properties.xml",
        "<Properties><DefaultValues><FactoryBase/></DefaultValues></Properties>",
    )];
    without_value.templates = vec![document(
        "templates.xml",
        "<Templates><Template><Name>T</Name><Properties><FactoryBase/></Properties></Template>\
         </Templates>",
    )];
    let first = with_value.resolve().unwrap();
    let second = without_value.resolve().unwrap();
    let first = &first.entries.last().unwrap().content;
    let second = &second.entries.last().unwrap().content;
    assert_eq!(first, &cycle_time(true, false, "3"));
    assert!(second.present);
    match (&first.data, &second.data) {
        (XmlNodeData::Branch(a), XmlNodeData::Branch(b)) => {
            assert_eq!(a.len(), b.len());
            assert_eq!(a[0].present, b[0].present);
            assert_eq!(a[0].name, b[0].name);
            assert_eq!(b[0].data, XmlNodeData::Absent);
        }
        _ => panic!("branches expected"),
    }
}

#[test]
fn a_leaf_without_text_breaks_the_chain() {
    let mut run = Run::new(
        "<Assets><Asset><Template>T</Template><Values><Standard><GUID>1</GUID></Standard>\
         <FactoryBase/></Values></Asset></Assets>",
    );
    run.templates = vec![document(
        "templates.xml",
        "<Templates><Template><Name>T</Name><Properties><FactoryBase><CycleTime/></FactoryBase>\
         </Properties></Template></Templates>",
    )];
    let registry = run.resolve().unwrap();
    let template = &registry.entries[1];
    assert_eq!(
        template.content,
        XmlNode {
            name: "FactoryBase".to_string(),
            present: true,
            data: XmlNodeData::Branch(vec![])
        }
    );
    let instance = &registry.entries[2];
    assert_eq!(
        instance.content,
        XmlNode {
            name: "FactoryBase".to_string(),
            present: true,
            data: XmlNodeData::Branch(vec![XmlNode {
                name: "CycleTime".to_string(),
                present: false,
                data: XmlNodeData::Absent
            }])
        }
    );
}

#[test]
fn an_instance_that_defines_nothing_below_a_parent_without_values_is_skipped() {
    let mut run = Run::new(
        "<Assets>\
         <Asset><Template>T</Template><Values><Standard><GUID>1</GUID></Standard></Values></Asset>\
         <Asset><BaseAssetGUID>1</BaseAssetGUID><Values><Standard><GUID>2</GUID></Standard>\
         <FactoryBase><CycleTime>5</CycleTime></FactoryBase></Values></Asset>\
         </Assets>",
    );
    run.properties = vec![];
    run.templates = vec![document(
        "templates.xml",
        "<Templates><Template><Name>T</Name><Properties><FactoryBase/></Properties></Template>\
         </Templates>",
    )];
    let registry = run.resolve().unwrap();
    let names: Vec<&str> =
        registry.entries.iter().map(|entry| entry.identifier.value.as_str()).collect();
    assert_eq!(names, vec!["T"]);
    assert_eq!(registry.parent_index(&ParentIdentifier::GUID("1".to_string())), None);
    assert_eq!(run.create(), Ok(vec![]));
}

#[test]
fn a_defaults_node_without_the_field_is_skipped() {
    let mut run = Run::new("<Assets/>");
    run.properties = vec![document(
        "properties.xml",
        "<Properties><DefaultValues><Building/></DefaultValues><DefaultValues><FactoryBase>\
         <CycleTime>7</CycleTime></FactoryBase></DefaultValues></Properties>",
    )];
    let registry = run.resolve().unwrap();
    assert_eq!(registry.entries[0].identifier.value, "/Properties[1]/DefaultValues[2]");
    assert_eq!(registry.entries[0].node_type, NodeType::DefaultValues);
    assert_eq!(registry.entries[1].content, cycle_time(true, false, "7"));
}

#[test]
fn a_doubled_root_field_is_a_structural_violation() {
    let mut run = Run::new("<Assets/>");
    run.properties = vec![document(
        "properties.xml",
        "<Properties><DefaultValues><FactoryBase/><FactoryBase/></DefaultValues></Properties>",
    )];
    assert_eq!(
        run.create(),
        Err(Error::StructuralViolation {
            name: "FactoryBase".to_string(),
            address: "/Properties[1]/DefaultValues[1]".to_string()
        })
    );
    let mut run = Run::new("<Assets/>");
    run.templates = vec![document(
        "templates.xml",
        "<Templates><Template><Name>T</Name><Properties><FactoryBase/><FactoryBase/></Properties>\
         </Template></Templates>",
    )];
    assert_eq!(
        run.create(),
        Err(Error::StructuralViolation {
            name: "FactoryBase".to_string(),
            address: "/Templates[1]/Template[1]/Properties[1]".to_string()
        })
    );
    let run = Run::new(
        "<Assets><Asset><Template>Factory</Template><Values><FactoryBase/><FactoryBase/></Values>\
         </Asset></Assets>",
    );
    assert_eq!(
        run.create(),
        Err(Error::StructuralViolation {
            name: "FactoryBase".to_string(),
            address: "/Assets[1]/Asset[1]/Values[1]".to_string()
        })
    );
}

#[test]
fn a_template_without_properties_or_without_the_field_is_passed_over() {
    let mut run = Run::new("<Assets/>");
    run.templates = vec![document(
        "templates.xml",
        "<Templates><Template><Name>A</Name></Template>\
         <Template><Name>B</Name><Properties><Building/></Properties></Template>\
         <Template><Name>C</Name><Properties><FactoryBase/></Properties></Template></Templates>",
    )];
    let registry = run.resolve().unwrap();
    let names: Vec<&str> =
        registry.entries.iter().map(|entry| entry.identifier.value.as_str()).collect();
    assert_eq!(names, vec!["/Properties[1]/DefaultValues[1]", "C"]);
}

#[test]
fn errors_end_a_run() {
    let run = Run::new("<Assets><Asset><Template>Factory</Template></Asset></Assets>");
    assert_eq!(
        run.create(),
        Err(Error::MissingMandatoryContainer {
            name: "Values".to_string(),
            address: "/Assets[1]/Asset[1]".to_string()
        })
    );
    let run = Run::new(
        "<Assets><Asset><Template>Factory</Template><Template>Mall</Template></Asset></Assets>",
    );
    assert_eq!(
        run.create(),
        Err(Error::StructuralViolation {
            name: "Template".to_string(),
            address: "/Assets[1]/Asset[1]".to_string()
        })
    );
    let run = Run::new(
        "<Assets><Asset><Template>Factory</Template><Values><FactoryBase>\
         <CycleTime>soon</CycleTime></FactoryBase></Values></Asset></Assets>",
    );
    assert!(run.resolve().is_ok());
    assert_eq!(
        run.create(),
        Err(Error::InvalidValue { name: "CycleTime".to_string(), value: "soon".to_string() })
    );
    let mut run = Run::new("<Assets/>");
    run.templates = vec![document("t.xml", "<Templates><Template><Name/></Template></Templates>")];
    assert_eq!(
        run.create(),
        Err(Error::MissingText {
            name: "Name".to_string(),
            address: "/Templates[1]/Template[1]".to_string()
        })
    );
}

#[test]
fn an_unknown_field_ends_the_compilation() {
    let properties = vec![document(
        "properties.xml",
        "<Properties><DefaultValues><Transporter7><TransporterSpeed>1.5</TransporterSpeed>\
         </Transporter7></DefaultValues></Properties>",
    )];
    let query = XmlTag {
        name: "Transporter7".to_string(),
        content: Content::Branch(vec![XmlTag {
            name: "TransporterSpeed".to_string(),
            content: Content::Leaf,
        }]),
    };
    let none: Vec<SourceDocument> = vec![];
    let result = create_mod(&query, &properties, &none, &vec![], &none, &vec![], &vec![], &StandardRules);
    assert_eq!(result, Err(Error::UnrecognizedField { name: "TransporterSpeed".to_string() }));
}

#[test]
fn templates_without_registered_defaults_start_the_chain() {
    let mut run = Run::new("<Assets/>");
    run.properties = vec![];
    let registry = run.resolve().unwrap();
    assert_eq!(registry.entries.len(), 3);
    assert_eq!(
        registry.entries[0].content,
        XmlNode {
            name: "FactoryBase".to_string(),
            present: true,
            data: XmlNodeData::Branch(vec![XmlNode {
                name: "CycleTime".to_string(),
                present: false,
                data: XmlNodeData::Absent
            }])
        }
    );
    assert_eq!(registry.entries[0].state, State::Included);
    assert_eq!(registry.parent_index(&ParentIdentifier::DefaultValues), None);
}

#[test]
fn an_empty_registry_knows_nothing() {
    let registry = Registry::new();
    assert!(registry.entries.is_empty());
    assert!(registry.identifiers_as_parent.is_empty());
    assert_eq!(registry.parent_index(&ParentIdentifier::DefaultValues), None);
    assert_eq!(registry.compile(&StandardRules), Ok(vec![]));
}
