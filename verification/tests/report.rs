use theme_editor::report::format_missing_base_values;

#[test]
fn missing_base_values_are_grouped_for_save_dialog() {
    let missing = vec![
        "component chip variant filled/focused property background".to_string(),
        "component button size common property border-width".to_string(),
    ];

    assert_eq!(
        format_missing_base_values(&missing),
        "The following components/props are missing values:\n\n\
Button\n  Sizes.Border Width\n\n\
Chip\n  Variants.Filled.Focused.Background"
    );
}
