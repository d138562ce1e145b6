use dprint_core::configuration::{ConfigKeyMap, ConfigKeyValue};
use dprint_shfmt::configuration::{resolve_config, Configuration, Diagnostic, GlobalDefaults};
use dprint_shfmt::resolve::assign;

fn bag(entries: Vec<(&str, ConfigKeyValue)>) -> ConfigKeyMap {
    let mut map = ConfigKeyMap::new();
    for (key, value) in entries {
        map.insert(key.to_string(), value);
    }
    map
}

fn no_globals() -> GlobalDefaults {
    GlobalDefaults { use_tabs: None, indent_width: None }
}

fn diagnostic(property_name: &str, message: &str) -> Diagnostic {
    Diagnostic { property_name: property_name.to_string(), message: message.to_string() }
}

#[test]
fn empty_bag_resolves_to_the_default_configuration() {
    let result = resolve_config(ConfigKeyMap::new(), &no_globals());
    assert_eq!(result.config, Configuration::default());
    assert!(result.diagnostics.is_empty());
    assert_eq!(GlobalDefaults::default(), no_globals());
}

#[test]
fn one_unknown_key_leaves_one_diagnostic() {
    let result = resolve_config(bag(vec![("something", ConfigKeyValue::from_str("value"))]), &no_globals());
    assert_eq!(result.config, Configuration::default());
    assert_eq!(
        result.diagnostics,
        vec![diagnostic("something", "Unknown property in configuration: something")]
    );
}

#[test]
fn keys_are_recognized_in_their_exact_spelling_only() {
    let result = resolve_config(
        bag(vec![
            ("indentwidth", ConfigKeyValue::from_i32(4)),
            ("IndentWidth", ConfigKeyValue::from_i32(4)),
            ("indent_width", ConfigKeyValue::from_i32(4)),
            ("binary_next_line", ConfigKeyValue::from_bool(true)),
        ]),
        &no_globals(),
    );
    assert_eq!(result.config, Configuration::default());
    let mut names: Vec<String> = result.diagnostics.iter().map(|d| d.property_name.clone()).collect();
    names.sort();
    assert_eq!(names, vec!["IndentWidth", "binary_next_line", "indent_width", "indentwidth"]);
    for d in &result.diagnostics {
        assert_eq!(d.message, format!("Unknown property in configuration: {}", d.property_name));
    }
}

#[test]
fn every_recognized_key_sets_its_option() {
    let result = resolve_config(
        bag(vec![
            ("indentWidth", ConfigKeyValue::from_i32(4)),
            ("binaryNextLine", ConfigKeyValue::from_bool(true)),
            ("switchCaseIndent", ConfigKeyValue::from_bool(true)),
            ("spaceRedirects", ConfigKeyValue::from_bool(true)),
            ("keepPadding", ConfigKeyValue::from_bool(true)),
            ("functionNextLine", ConfigKeyValue::from_bool(true)),
        ]),
        &no_globals(),
    );
    assert_eq!(
        result.config,
        Configuration {
            indent_width: 4,
            binary_next_line: true,
            switch_case_indent: true,
            space_redirects: true,
            keep_padding: true,
            function_next_line: true,
        }
    );
    assert!(result.diagnostics.is_empty());
}

#[test]
fn each_boolean_key_sets_its_own_option_only() {
    let keys = ["binaryNextLine", "switchCaseIndent", "spaceRedirects", "keepPadding", "functionNextLine"];
    for (i, key) in keys.iter().enumerate() {
        let result = resolve_config(bag(vec![(*key, ConfigKeyValue::from_bool(true))]), &no_globals());
        let c = result.config;
        assert_eq!(
            [c.binary_next_line, c.switch_case_indent, c.space_redirects, c.keep_padding, c.function_next_line],
            [i == 0, i == 1, i == 2, i == 3, i == 4]
        );
        assert_eq!(c.indent_width, 0);
        assert!(result.diagnostics.is_empty());
    }
}

#[test]
fn values_are_parsed_from_their_text() {
    let result = resolve_config(
        bag(vec![
            ("indentWidth", ConfigKeyValue::from_str("8")),
            ("binaryNextLine", ConfigKeyValue::from_str("true")),
            ("keepPadding", ConfigKeyValue::from_str("false")),
        ]),
        &no_globals(),
    );
    assert_eq!(result.config.indent_width, 8);
    assert!(result.config.binary_next_line);
    assert!(!result.config.keep_padding);
    assert!(result.diagnostics.is_empty());
}

#[test]
fn number_that_does_not_fit_leaves_the_default_and_a_diagnostic() {
    let result = resolve_config(bag(vec![("indentWidth", ConfigKeyValue::from_i32(256))]), &no_globals());
    assert_eq!(result.config, Configuration::default());
    assert_eq!(
        result.diagnostics,
        vec![diagnostic(
            "indentWidth",
            "Error parsing configuration value for 'indentWidth'. Message: number too large to fit in target type"
        )]
    );
    let result = resolve_config(bag(vec![("indentWidth", ConfigKeyValue::from_i32(-1))]), &no_globals());
    assert_eq!(result.config, Configuration::default());
    assert_eq!(result.diagnostics.len(), 1);
    assert_eq!(result.diagnostics[0].property_name, "indentWidth");
    assert_eq!(
        result.diagnostics[0].message,
        "Error parsing configuration value for 'indentWidth'. Message: invalid digit found in string"
    );
    let result = resolve_config(bag(vec![("indentWidth", ConfigKeyValue::from_i32(255))]), &no_globals());
    assert_eq!(result.config.indent_width, 255);
    assert!(result.diagnostics.is_empty());
}

#[test]
fn malformed_boolean_leaves_the_default_and_a_diagnostic() {
    let result = resolve_config(bag(vec![("spaceRedirects", ConfigKeyValue::from_str("yes"))]), &no_globals());
    assert_eq!(result.config, Configuration::default());
    assert_eq!(
        result.diagnostics,
        vec![diagnostic(
            "spaceRedirects",
            "Error parsing configuration value for 'spaceRedirects'. Message: provided string was not `true` or `false`"
        )]
    );
    let result = resolve_config(bag(vec![("keepPadding", ConfigKeyValue::from_i32(1))]), &no_globals());
    assert!(!result.config.keep_padding);
    assert_eq!(result.diagnostics.len(), 1);
    assert_eq!(result.diagnostics[0].property_name, "keepPadding");
}

#[test]
fn value_of_the_wrong_type_is_malformed() {
    let result = resolve_config(bag(vec![("indentWidth", ConfigKeyValue::from_bool(true))]), &no_globals());
    assert_eq!(result.config.indent_width, 0);
    assert_eq!(result.diagnostics.len(), 1);
    assert_eq!(result.diagnostics[0].property_name, "indentWidth");
    let result = resolve_config(bag(vec![("indentWidth", ConfigKeyValue::from_str(""))]), &no_globals());
    assert_eq!(result.config.indent_width, 0);
    assert_eq!(
        result.diagnostics,
        vec![diagnostic(
            "indentWidth",
            "Error parsing configuration value for 'indentWidth'. Message: cannot parse integer from empty string"
        )]
    );
}

#[test]
fn parse_failures_come_in_the_order_of_the_options_and_unknown_keys_last() {
    let result = resolve_config(
        bag(vec![
            ("zzz", ConfigKeyValue::from_i32(1)),
            ("functionNextLine", ConfigKeyValue::from_str("on")),
            ("aaa", ConfigKeyValue::from_i32(1)),
            ("indentWidth", ConfigKeyValue::from_str("wide")),
            ("switchCaseIndent", ConfigKeyValue::from_i32(0)),
            ("binaryNextLine", ConfigKeyValue::from_bool(true)),
        ]),
        &no_globals(),
    );
    assert_eq!(
        result.config,
        Configuration { binary_next_line: true, ..Configuration::default() }
    );
    let names: Vec<&str> = result.diagnostics.iter().map(|d| d.property_name.as_str()).collect();
    assert_eq!(names.len(), 5);
    assert_eq!(&names[..3], &["indentWidth", "switchCaseIndent", "functionNextLine"]);
    let mut unknown = names[3..].to_vec();
    unknown.sort();
    assert_eq!(unknown, vec!["aaa", "zzz"]);
}

#[test]
fn host_indent_width_counts_only_where_the_host_does_not_use_tabs() {
    let resolve = |use_tabs, indent_width| {
        resolve_config(ConfigKeyMap::new(), &GlobalDefaults { use_tabs, indent_width }).config.indent_width
    };
    assert_eq!(resolve(Some(false), Some(2)), 2);
    assert_eq!(resolve(Some(false), Some(0)), 0);
    assert_eq!(resolve(Some(false), None), 0);
    assert_eq!(resolve(Some(true), Some(2)), 0);
    assert_eq!(resolve(None, Some(2)), 0);
    assert_eq!(resolve(None, None), 0);
    assert_eq!(GlobalDefaults { use_tabs: Some(false), indent_width: Some(7) }.seed().indent_width, 7);
    assert_eq!(
        GlobalDefaults { use_tabs: Some(true), indent_width: Some(7) }.seed(),
        Configuration::default()
    );
}

#[test]
fn bag_overrides_the_host_indent_width() {
    let globals = GlobalDefaults { use_tabs: Some(false), indent_width: Some(2) };
    let result = resolve_config(bag(vec![("indentWidth", ConfigKeyValue::from_i32(6))]), &globals);
    assert_eq!(result.config.indent_width, 6);
    let result = resolve_config(bag(vec![("indentWidth", ConfigKeyValue::from_str("x"))]), &globals);
    assert_eq!(result.config.indent_width, 2);
    assert_eq!(result.diagnostics.len(), 1);
    let result = resolve_config(bag(vec![("other", ConfigKeyValue::from_i32(6))]), &globals);
    assert_eq!(result.config.indent_width, 2);
    assert_eq!(result.diagnostics, vec![diagnostic("other", "Unknown property in configuration: other")]);
}

#[test]
fn assign_keeps_the_stored_value_where_none_is_given() {
    let mut store = 3u8;
    assign(&mut store, None);
    assert_eq!(store, 3);
    assign(&mut store, Some(9));
    assert_eq!(store, 9);
}
