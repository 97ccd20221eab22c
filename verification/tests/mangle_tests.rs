use mips_assembler::{create_function_label, create_label, FunctionSymbol};

fn symbol(module: &str, version: &[u32], name: &str) -> FunctionSymbol {
    FunctionSymbol {
        module_name: module.to_string(),
        module_version: version.to_vec(),
        symbol: name.to_string(),
    }
}

#[test]
fn mangles_demo_example() {
    let label = create_function_label(&symbol("demo", &[1, 0], "main!"));
    assert!(label.starts_with("demo_1_0_mainu33"));
    assert_eq!(label, "demo_1_0_mainu33");
}

#[test]
fn mangling_is_deterministic() {
    let a = create_function_label(&symbol("demo", &[1, 0], "main!"));
    let b = create_function_label(&symbol("demo", &[1, 0], "main!"));
    assert_eq!(a, b);
}

#[test]
fn passes_letters_digits_underscore_through() {
    let mut buffer = String::new();
    create_label(&mut buffer, "abc_XYZ9");
    assert_eq!(buffer, "abc_XYZ9");
}

#[test]
fn escapes_leading_digit() {
    let mut buffer = String::new();
    create_label(&mut buffer, "9x");
    assert_eq!(buffer, "u57x");
}

#[test]
fn escapes_punctuation_with_code_point() {
    let mut buffer = String::new();
    create_label(&mut buffer, "a-b");
    assert_eq!(buffer, "au45b");
}

#[test]
fn zero_pads_small_code_points() {
    let mut buffer = String::new();
    create_label(&mut buffer, "\t");
    assert_eq!(buffer, "u09");
}

#[test]
fn appends_to_existing_buffer() {
    let mut buffer = String::from("pre_");
    create_label(&mut buffer, "x!");
    assert_eq!(buffer, "pre_xu33");
}

#[test]
fn empty_module_name_label_starts_with_underscore() {
    let label = create_function_label(&symbol("", &[2], "f"));
    assert_eq!(label, "_2_f");
}

#[test]
fn every_generated_label_is_valid() {
    let cases = vec![
        symbol("demo", &[1, 0], "main!"),
        symbol("", &[], ""),
        symbol("9start", &[0, 0, 7], "a b\tc"),
        symbol("ünïcode", &[3], "entry-point!"),
    ];
    for case in cases {
        let label = create_function_label(&case);
        let mut chars = label.chars();
        let first = chars.next().expect("label must be nonempty");
        assert!(first.is_ascii_alphabetic() || first == '_');
        for c in label.chars() {
            assert!(c.is_ascii_alphanumeric() || c == '_');
        }
    }
}

#[test]
fn version_components_render_in_decimal() {
    let label = create_function_label(&symbol("m", &[10, 255], "f"));
    assert_eq!(label, "m_10_255_f");
}
