use c_defines_to_enum::config::{parse_lit_to_bool, parse_lit_to_string};
use c_defines_to_enum::{
    parse_c_defines_to_enum, Argument, CaseMode, Configuration, Error, Literal, LiteralValue,
};

fn string_literal(value: &str) -> Literal {
    Literal { text: format!("{:?}", value), value: LiteralValue::Str(value.to_string()) }
}

fn bool_literal(value: bool) -> Literal {
    Literal { text: format!("{}", value), value: LiteralValue::Bool(value) }
}

fn other_literal(text: &str) -> Literal {
    Literal { text: text.to_string(), value: LiteralValue::Other }
}

fn option(key: &str, value: Literal) -> Argument {
    Argument::NameValue { key: key.to_string(), value }
}

fn name(text: &str) -> Argument {
    Argument::Name(text.to_string())
}

#[test]
fn a_string_literal_gives_its_string() {
    assert_eq!(parse_lit_to_string(&string_literal("abc")), Ok("abc".to_string()));
    assert_eq!(parse_lit_to_string(&string_literal("")), Ok("".to_string()));
}

#[test]
fn another_literal_is_not_a_string() {
    let error = parse_lit_to_string(&bool_literal(true)).unwrap_err();
    assert_eq!(error, Error::NotAString { literal: "true".to_string() });
    assert_eq!(error.message(), "Lit true is not a String.");
    let error = parse_lit_to_string(&other_literal("12")).unwrap_err();
    assert_eq!(error.message(), "Lit 12 is not a String.");
}

#[test]
fn a_boolean_literal_gives_its_boolean() {
    assert_eq!(parse_lit_to_bool(&bool_literal(true)), Ok(true));
    assert_eq!(parse_lit_to_bool(&bool_literal(false)), Ok(false));
}

#[test]
fn another_literal_is_not_a_boolean() {
    let error = parse_lit_to_bool(&string_literal("yes")).unwrap_err();
    assert_eq!(error, Error::NotABool { literal: "\"yes\"".to_string() });
    assert_eq!(error.message(), "Lit \"yes\" is not a bool.");
    let error = parse_lit_to_bool(&other_literal("1")).unwrap_err();
    assert_eq!(error.message(), "Lit 1 is not a bool.");
}

#[test]
fn options_default_to_empty_and_false() {
    let configuration =
        Configuration::from_arguments(&vec![name("E"), option("content", string_literal("text"))]).unwrap();
    assert_eq!(configuration.enum_name, "E");
    assert_eq!(configuration.source_text, "text");
    assert_eq!(configuration.remove_prefix, "");
    assert_eq!(configuration.remove_suffix, "");
    assert_eq!(configuration.case_mode, CaseMode::Preserve);
}

#[test]
fn every_option_is_read() {
    let configuration = Configuration::from_arguments(&vec![
        option("remove_suffix", string_literal("_NR")),
        option("to_upper", bool_literal(true)),
        name("Numbers"),
        Argument::List,
        option("remove_prefix", string_literal("SYS_")),
        option("unknown", other_literal("1")),
        Argument::Content("#define A 1".to_string()),
    ])
    .unwrap();
    assert_eq!(configuration.enum_name, "Numbers");
    assert_eq!(configuration.source_text, "#define A 1");
    assert_eq!(configuration.remove_prefix, "SYS_");
    assert_eq!(configuration.remove_suffix, "_NR");
    assert_eq!(configuration.case_mode, CaseMode::Upper);
}

#[test]
fn the_last_of_repeated_arguments_wins() {
    let configuration = Configuration::from_arguments(&vec![
        name("First"),
        option("content", string_literal("one")),
        Argument::Content("two".to_string()),
        option("remove_prefix", string_literal("A")),
        option("remove_prefix", string_literal("B")),
        name("Second"),
        option("to_lower", bool_literal(true)),
        option("to_lower", bool_literal(false)),
    ])
    .unwrap();
    assert_eq!(configuration.enum_name, "Second");
    assert_eq!(configuration.source_text, "two");
    assert_eq!(configuration.remove_prefix, "B");
    assert_eq!(configuration.case_mode, CaseMode::Preserve);
    let configuration = Configuration::from_arguments(&vec![
        name("E"),
        Argument::Content("two".to_string()),
        option("content", string_literal("one")),
    ])
    .unwrap();
    assert_eq!(configuration.source_text, "one");
}

#[test]
fn lowercase_wins_over_uppercase() {
    let configuration = Configuration::from_arguments(&vec![
        name("E"),
        option("content", string_literal("")),
        option("to_upper", bool_literal(true)),
        option("to_lower", bool_literal(true)),
    ])
    .unwrap();
    assert_eq!(configuration.case_mode, CaseMode::Lower);
    let configuration = Configuration::from_arguments(&vec![
        name("E"),
        option("content", string_literal("")),
        option("to_lower", bool_literal(true)),
    ])
    .unwrap();
    assert_eq!(configuration.case_mode, CaseMode::Lower);
}

#[test]
fn a_missing_name_fails() {
    let error = Configuration::from_arguments(&vec![option("content", string_literal("text"))]).unwrap_err();
    assert_eq!(error, Error::MissingEnumName);
    assert_eq!(error.message(), "Not specified enum name");
    let error = parse_c_defines_to_enum(&vec![]).unwrap_err();
    assert_eq!(error, Error::MissingEnumName);
}

#[test]
fn a_missing_content_fails() {
    let error = Configuration::from_arguments(&vec![name("E")]).unwrap_err();
    assert_eq!(error, Error::MissingContent);
    assert_eq!(error.message(), "Content is missing.");
    let error =
        parse_c_defines_to_enum(&vec![name("E"), option("remove_prefix", string_literal("A"))]).unwrap_err();
    assert_eq!(error, Error::MissingContent);
}

#[test]
fn a_content_that_is_no_string_fails() {
    let error =
        Configuration::from_arguments(&vec![name("E"), option("content", other_literal("42"))]).unwrap_err();
    assert_eq!(error, Error::NotAString { literal: "42".to_string() });
}

#[test]
fn a_prefix_or_suffix_that_is_no_string_fails() {
    let error = Configuration::from_arguments(&vec![
        name("E"),
        option("content", string_literal("")),
        option("remove_prefix", bool_literal(false)),
    ])
    .unwrap_err();
    assert_eq!(error, Error::NotAString { literal: "false".to_string() });
    let error = Configuration::from_arguments(&vec![
        name("E"),
        option("content", string_literal("")),
        option("remove_suffix", other_literal("'c'")),
    ])
    .unwrap_err();
    assert_eq!(error, Error::NotAString { literal: "'c'".to_string() });
}

#[test]
fn a_case_option_that_is_no_boolean_fails() {
    let error = Configuration::from_arguments(&vec![
        name("E"),
        option("content", string_literal("")),
        option("to_upper", string_literal("true")),
    ])
    .unwrap_err();
    assert_eq!(error, Error::NotABool { literal: "\"true\"".to_string() });
    let error = Configuration::from_arguments(&vec![
        name("E"),
        option("content", string_literal("")),
        option("to_lower", other_literal("1")),
    ])
    .unwrap_err();
    assert_eq!(error, Error::NotABool { literal: "1".to_string() });
}

#[test]
fn the_first_thing_wrong_is_reported() {
    let error = Configuration::from_arguments(&vec![
        option("to_lower", other_literal("1")),
        option("remove_prefix", other_literal("2")),
        option("remove_suffix", other_literal("3")),
        option("to_upper", other_literal("4")),
    ])
    .unwrap_err();
    assert_eq!(error, Error::MissingEnumName);
    let error = Configuration::from_arguments(&vec![
        name("E"),
        option("to_lower", other_literal("1")),
        option("remove_prefix", other_literal("2")),
        option("remove_suffix", other_literal("3")),
        option("to_upper", other_literal("4")),
    ])
    .unwrap_err();
    assert_eq!(error, Error::MissingContent);
    let error = Configuration::from_arguments(&vec![
        name("E"),
        option("content", string_literal("")),
        option("to_lower", other_literal("1")),
        option("remove_prefix", other_literal("2")),
        option("remove_suffix", other_literal("3")),
        option("to_upper", other_literal("4")),
    ])
    .unwrap_err();
    assert_eq!(error, Error::NotAString { literal: "3".to_string() });
    let error = Configuration::from_arguments(&vec![
        name("E"),
        option("content", string_literal("")),
        option("to_lower", other_literal("1")),
        option("remove_prefix", other_literal("2")),
        option("to_upper", other_literal("4")),
    ])
    .unwrap_err();
    assert_eq!(error, Error::NotAString { literal: "2".to_string() });
    let error = Configuration::from_arguments(&vec![
        name("E"),
        option("content", string_literal("")),
        option("to_lower", other_literal("1")),
        option("to_upper", other_literal("4")),
    ])
    .unwrap_err();
    assert_eq!(error, Error::NotABool { literal: "4".to_string() });
}

#[test]
fn a_configuration_error_comes_before_the_text_is_scanned() {
    let error = parse_c_defines_to_enum(&vec![
        name("E"),
        option("content", string_literal("#define\n")),
        option("to_lower", other_literal("1")),
    ])
    .unwrap_err();
    assert_eq!(error, Error::NotABool { literal: "1".to_string() });
}
