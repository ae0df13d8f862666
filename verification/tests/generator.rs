use c_defines_to_enum::{
    generate, parse_c_defines_to_enum, Argument, Error, GeneratedEnum, Literal, LiteralValue, Strategy,
    SymbolTable,
};

fn string_option(key: &str, value: &str) -> Argument {
    Argument::NameValue {
        key: key.to_string(),
        value: Literal { text: format!("{:?}", value), value: LiteralValue::Str(value.to_string()) },
    }
}

fn bool_option(key: &str, value: bool) -> Argument {
    Argument::NameValue {
        key: key.to_string(),
        value: Literal { text: format!("{}", value), value: LiteralValue::Bool(value) },
    }
}

fn variants(generated: &GeneratedEnum) -> Vec<(String, usize)> {
    (0..generated.variant_count())
        .map(|v| (generated.variant(v).name.clone(), generated.variant(v).value))
        .collect()
}

fn table(items: &[(&str, usize)]) -> SymbolTable {
    let mut table = SymbolTable::new();
    for (name, value) in items {
        table.insert(name.to_string(), *value);
    }
    table
}

#[test]
fn end_to_end_dense() {
    let generated = parse_c_defines_to_enum(&vec![
        Argument::Name("Syscall".to_string()),
        string_option("content", "#define SYS_OPEN 2\n#define SYS_READ 0\n"),
        string_option("remove_prefix", "SYS_"),
        bool_option("to_lower", true),
    ])
    .unwrap();
    assert_eq!(generated.name(), "Syscall");
    assert_eq!(generated.strategy(), Strategy::Dense);
    assert_eq!(variants(&generated), vec![("open".to_string(), 2), ("read".to_string(), 0)]);
    assert_eq!(generated.discriminant(0), Some(2));
    assert_eq!(generated.discriminant(1), Some(0));
    assert_eq!(generated.value_of(0), 2);
    assert_eq!(generated.value_of(1), 0);
    assert_eq!(generated.variant_of(2), Some(0));
    assert_eq!(generated.variant_of(0), Some(1));
    assert_eq!(generated.variant_of(1), None);
}

#[test]
fn end_to_end_sparse() {
    let generated = parse_c_defines_to_enum(&vec![
        Argument::Name("E".to_string()),
        Argument::Content("#define A 0x10\n#define B 020\n#define C 16\n".to_string()),
    ])
    .unwrap();
    assert_eq!(generated.strategy(), Strategy::Sparse);
    assert_eq!(
        variants(&generated),
        vec![("A".to_string(), 16), ("B".to_string(), 16), ("C".to_string(), 16)]
    );
    for v in 0..3 {
        assert_eq!(generated.discriminant(v), None);
        assert_eq!(generated.value_of(v), 16);
    }
    assert_eq!(generated.variant_of(16), Some(0));
    assert_eq!(generated.variant_of(0x10), Some(0));
    assert_eq!(generated.variant_of(20), None);
}

#[test]
fn an_alias_makes_the_enumeration_sparse() {
    let generated = parse_c_defines_to_enum(&vec![
        Argument::Name("E".to_string()),
        Argument::Content("#define A 1\n#define B A\n".to_string()),
    ])
    .unwrap();
    assert_eq!(generated.strategy(), Strategy::Sparse);
    assert_eq!(variants(&generated), vec![("A".to_string(), 1), ("B".to_string(), 1)]);
    assert_eq!(generated.variant_of(1), Some(0));
    assert_eq!(generated.value_of(1), 1);
}

#[test]
fn a_forward_reference_fails_the_generation() {
    let error = parse_c_defines_to_enum(&vec![
        Argument::Name("E".to_string()),
        Argument::Content("#define A B\n".to_string()),
    ])
    .unwrap_err();
    assert_eq!(error, Error::DefinedAhead { name: "A".to_string(), reference: "B".to_string() });
    assert!(error.message().contains("ahead of"));
}

#[test]
fn a_dense_enumeration_converts_there_and_back() {
    let generated = generate(&table(&[("a", 7), ("b", 0), ("c", 300), ("d", usize::MAX)]), false, "E");
    assert_eq!(generated.strategy(), Strategy::Dense);
    for v in 0..generated.variant_count() {
        assert_eq!(generated.discriminant(v), Some(generated.variant(v).value));
        assert_eq!(generated.variant_of(generated.value_of(v)), Some(v));
    }
    assert_eq!(generated.variant_of(1), None);
    assert_eq!(generated.variant_of(8), None);
}

#[test]
fn a_sparse_enumeration_gives_the_first_variant_of_a_value() {
    let generated = generate(&table(&[("a", 7), ("b", 3), ("c", 7), ("d", 3), ("e", 1)]), true, "E");
    assert_eq!(generated.strategy(), Strategy::Sparse);
    assert_eq!(generated.variant_of(7), Some(0));
    assert_eq!(generated.variant_of(3), Some(1));
    assert_eq!(generated.variant_of(1), Some(4));
    assert_eq!(generated.variant_of(2), None);
    for v in 0..generated.variant_count() {
        assert_eq!(generated.discriminant(v), None);
        let back = generated.variant_of(generated.value_of(v)).unwrap();
        assert_eq!(generated.value_of(back), generated.value_of(v));
    }
}

#[test]
fn a_sparse_enumeration_may_have_distinct_values() {
    let generated = generate(&table(&[("a", 1), ("b", 2)]), true, "Flags");
    assert_eq!(generated.name(), "Flags");
    assert_eq!(generated.strategy(), Strategy::Sparse);
    assert_eq!(generated.variant_of(2), Some(1));
}

#[test]
fn an_empty_table_gives_an_empty_enumeration() {
    let generated = generate(&SymbolTable::new(), false, "Nothing");
    assert_eq!(generated.variant_count(), 0);
    assert_eq!(generated.strategy(), Strategy::Dense);
    assert_eq!(generated.variant_of(0), None);
}
