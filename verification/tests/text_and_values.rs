use modops::error::Failure;
use modops::files::{check_if_path_exists, enhanced_name, file_kind, inner_data_path};
use modops::identifier::NodeType;
use modops::text::{concat3, parse_decimal, str_equal, to_decimal};
use modops::values::{new_value, Rule, StandardRules, ValueRules};

#[test]
fn to_decimal_writes_digits_without_leading_zeros() {
    assert_eq!(to_decimal(0), "0");
    assert_eq!(to_decimal(7), "7");
    assert_eq!(to_decimal(10), "10");
    assert_eq!(to_decimal(5000), "5000");
    assert_eq!(to_decimal(1234567890), "1234567890");
    assert_eq!(to_decimal(usize::MAX), usize::MAX.to_string());
}

#[test]
fn parse_decimal_reads_what_the_standard_parser_reads() {
    let samples = [
        "0", "7", "007", "+5", "100", "", "+", "-1", "-0", "1_0", " 5", "5 ", "12a", "++1", "1+",
        "18446744073709551615", "18446744073709551616", "99999999999999999999999", "٣",
    ];
    for sample in samples {
        assert_eq!(parse_decimal(sample), sample.parse::<usize>().ok(), "sample {:?}", sample);
    }
}

#[test]
fn parse_decimal_edge_cases() {
    assert_eq!(parse_decimal(""), None);
    assert_eq!(parse_decimal("+"), None);
    assert_eq!(parse_decimal("+42"), Some(42));
    assert_eq!(parse_decimal("0042"), Some(42));
    assert_eq!(parse_decimal("-42"), None);
    assert_eq!(parse_decimal("4 2"), None);
}

#[test]
fn parse_and_write_round_trip() {
    for n in [0usize, 1, 9, 10, 99, 100, 4096, 65535, 1_000_000] {
        assert_eq!(parse_decimal(&to_decimal(n)), Some(n));
    }
}

#[test]
fn str_equal_compares_characters() {
    assert!(str_equal("Values", "Values"));
    assert!(!str_equal("Values", "values"));
    assert!(!str_equal("Values", "Value"));
    assert!(str_equal("", ""));
}

#[test]
fn concat3_joins_in_order() {
    assert_eq!(concat3("a", "/", "b"), "a/b");
    assert_eq!(concat3("", "", ""), "");
}

#[test]
fn new_value_multiplies_storage_amount_by_ten() {
    assert_eq!(new_value("StorageAmount", "12"), Ok("120".to_string()));
}

#[test]
fn new_value_doubles_the_distances_and_ranges() {
    for name in [
        "IndustrializationDistance",
        "FullSatisfactionDistance",
        "NoSatisfactionDistance",
        "HeatRange",
    ] {
        assert_eq!(new_value(name, "7"), Ok("14".to_string()));
    }
}

#[test]
fn new_value_divides_cycle_time_by_five_rounding_down() {
    assert_eq!(new_value("CycleTime", "100"), Ok("20".to_string()));
    assert_eq!(new_value("CycleTime", "50"), Ok("10".to_string()));
    assert_eq!(new_value("CycleTime", "104"), Ok("20".to_string()));
    assert_eq!(new_value("CycleTime", "4"), Ok("0".to_string()));
}

#[test]
fn new_value_divides_crafting_time_by_ten() {
    assert_eq!(new_value("CraftingTime", "95"), Ok("9".to_string()));
}

#[test]
fn new_value_divides_pauses_by_five_thousand() {
    assert_eq!(new_value("MinPauseBetweenEvents", "12000"), Ok("2".to_string()));
    assert_eq!(new_value("MaxPauseBetweenEvents", "4999"), Ok("0".to_string()));
}

#[test]
fn new_value_adds_one_resolver_unit() {
    assert_eq!(new_value("ResolverUnitCount", "3"), Ok("4".to_string()));
}

#[test]
fn new_value_sets_move_times_to_ten_whatever_they_were() {
    for name in ["MoveInMs", "MoveOutMs", "MoveRandomMs"] {
        assert_eq!(new_value(name, "123456"), Ok("10".to_string()));
        assert_eq!(new_value(name, "not a number"), Ok("10".to_string()));
        assert_eq!(new_value(name, ""), Ok("10".to_string()));
    }
}

#[test]
fn new_value_refuses_a_field_without_rule() {
    assert_eq!(new_value("Unknown", "1"), Err(Failure::UnrecognizedField));
    assert_eq!(new_value("", "1"), Err(Failure::UnrecognizedField));
    assert_eq!(new_value("cycletime", "1"), Err(Failure::UnrecognizedField));
}

#[test]
fn new_value_refuses_a_value_that_is_no_number() {
    assert_eq!(new_value("CycleTime", "fast"), Err(Failure::InvalidValue));
    assert_eq!(new_value("CycleTime", ""), Err(Failure::InvalidValue));
    assert_eq!(new_value("CycleTime", "1.5"), Err(Failure::InvalidValue));
    assert_eq!(new_value("CycleTime", "-5"), Err(Failure::InvalidValue));
}

#[test]
fn new_value_refuses_a_result_that_does_not_fit() {
    let max = usize::MAX.to_string();
    assert_eq!(new_value("StorageAmount", &max), Err(Failure::InvalidValue));
    assert_eq!(new_value("HeatRange", &max), Err(Failure::InvalidValue));
    assert_eq!(new_value("ResolverUnitCount", &max), Err(Failure::InvalidValue));
    assert_eq!(new_value("CycleTime", &max), Ok((usize::MAX / 5).to_string()));
    let too_large = format!("{}0", max);
    assert_eq!(new_value("CycleTime", &too_large), Err(Failure::InvalidValue));
}

#[test]
fn rule_lookup_knows_the_whole_number_fields() {
    assert_eq!(Rule::lookup("StorageAmount"), Some(Rule::Multiply(10)));
    assert_eq!(Rule::lookup("HeatRange"), Some(Rule::Multiply(2)));
    assert_eq!(Rule::lookup("CycleTime"), Some(Rule::Divide(5)));
    assert_eq!(Rule::lookup("CraftingTime"), Some(Rule::Divide(10)));
    assert_eq!(Rule::lookup("MinPauseBetweenEvents"), Some(Rule::Divide(5000)));
    assert_eq!(Rule::lookup("ResolverUnitCount"), Some(Rule::Add(1)));
    assert_eq!(Rule::lookup("MoveOutMs"), Some(Rule::Ten));
    assert_eq!(Rule::lookup("TransporterSpeed"), None);
}

#[test]
fn rule_apply_handles_a_zero_divisor() {
    assert_eq!(Rule::Divide(0).apply("10"), Err(Failure::InvalidValue));
    assert_eq!(Rule::Divide(3).apply("10"), Ok("3".to_string()));
    assert_eq!(Rule::Multiply(0).apply("10"), Ok("0".to_string()));
    assert_eq!(Rule::Add(0).apply("+10"), Ok("10".to_string()));
}

#[test]
fn standard_rules_are_the_free_function() {
    let rules = StandardRules;
    assert_eq!(rules.new_value("CycleTime", "100"), new_value("CycleTime", "100"));
    assert_eq!(rules.new_value("Nope", "100"), new_value("Nope", "100"));
}

#[test]
fn enhanced_name_prefixes_the_mod_name() {
    assert_eq!(enhanced_name("Production"), "JJ's Enhanced Production");
    assert_eq!(enhanced_name(""), "JJ's Enhanced ");
}

#[test]
fn check_if_path_exists_accepts_and_refuses() {
    assert_eq!(check_if_path_exists("data/in", true), Ok("data/in".to_string()));
    assert_eq!(
        check_if_path_exists("data/in", false),
        Err("Path does not exist: data/in".to_string())
    );
}

#[test]
fn file_kind_knows_the_three_file_names() {
    assert_eq!(file_kind("properties.xml"), Some(NodeType::DefaultValues));
    assert_eq!(file_kind("templates.xml"), Some(NodeType::Template));
    assert_eq!(file_kind("assets.xml"), Some(NodeType::Asset));
    assert_eq!(file_kind("Assets.xml"), None);
    assert_eq!(file_kind("assets.xml.bak"), None);
    assert_eq!(file_kind(""), None);
}

#[test]
fn inner_data_path_skips_the_first_component() {
    let components = vec![
        "data0".to_string(),
        "data".to_string(),
        "config".to_string(),
        "assets.xml".to_string(),
    ];
    assert_eq!(inner_data_path(&components), "data\\config\\assets.xml");
    assert_eq!(inner_data_path(&vec!["only".to_string()]), "");
    assert_eq!(inner_data_path(&vec![]), "");
    assert_eq!(inner_data_path(&vec!["a".to_string(), "b".to_string()]), "b");
}
