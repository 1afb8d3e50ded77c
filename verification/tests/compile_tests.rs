//! The configuration loader and the rule compiler: required fields, field
//! shapes, severity literals, the reserved global section, and the error
//! texts.

use relint::errors::{SpecificConfigError, SpecificFieldError};
use relint::lints::TomlLintFactory;
use relint::severity::ErrorLevel;

fn field_error_of(e: relint::errors::ConfigError) -> relint::errors::FieldError {
    match e.error {
        SpecificConfigError::Field(fe) => fe,
        other => panic!("expected a field error, got {:?}", other),
    }
}

#[test]
fn missing_message_names_field_and_rule() {
    let factory = TomlLintFactory::new("[myrule]\npattern = \"x\"\n").unwrap();
    let fe = field_error_of(factory.build_lints().unwrap_err());
    assert_eq!(fe.field, "myrule.message");
    assert_eq!(fe.error, SpecificFieldError::MissingField);
    assert_eq!(fe.render(), "myrule.message: Missing field");
}

#[test]
fn missing_pattern_names_field_and_rule() {
    let factory = TomlLintFactory::new("[r]\nmessage = \"m\"\n").unwrap();
    let fe = field_error_of(factory.build_lints().unwrap_err());
    assert_eq!(fe.field, "r.pattern");
    assert_eq!(fe.error, SpecificFieldError::MissingField);
}

#[test]
fn unrecognized_severity_is_a_field_type_error() {
    let factory = TomlLintFactory::new(
        "[r]\nseverity = \"Critical\"\nmessage = \"m\"\npattern = \"x\"\n",
    )
    .unwrap();
    let fe = field_error_of(factory.build_lints().unwrap_err());
    assert_eq!(fe.field, "r.severity");
    match fe.error {
        SpecificFieldError::FieldType { expected, actual } => {
            assert_eq!(expected, "Error, Warning or Info");
            assert_eq!(actual, "Critical");
        },
        other => panic!("expected a field-type error, got {:?}", other),
    }
}

#[test]
fn lowercase_severity_is_rejected() {
    let factory = TomlLintFactory::new(
        "[r]\nseverity = \"error\"\nmessage = \"m\"\npattern = \"x\"\n",
    )
    .unwrap();
    assert!(factory.build_lints().is_err());
}

#[test]
fn severity_defaults_to_error() {
    let factory = TomlLintFactory::new("[r]\nmessage = \"m\"\npattern = \"x\"\n").unwrap();
    let lints = factory.build_lints().unwrap();
    assert_eq!(lints.len(), 1);
    assert_eq!(lints[0].severity, ErrorLevel::Error);
    assert_eq!(lints[0].name, "r");
    assert_eq!(lints[0].message, b"m".to_vec());
}

#[test]
fn severity_literals_parse_exactly() {
    assert_eq!(ErrorLevel::from_name(&"Error".to_string()), Some(ErrorLevel::Error));
    assert_eq!(ErrorLevel::from_name(&"Warning".to_string()), Some(ErrorLevel::Warning));
    assert_eq!(ErrorLevel::from_name(&"Info".to_string()), Some(ErrorLevel::Info));
    assert_eq!(ErrorLevel::from_name(&"error".to_string()), None);
    assert_eq!(ErrorLevel::from_name(&"".to_string()), None);
    assert_eq!(ErrorLevel::Warning.name(), "Warning");
}

#[test]
fn severity_order_is_error_warning_info() {
    assert!(ErrorLevel::Error.at_least(ErrorLevel::Warning));
    assert!(ErrorLevel::Error.at_least(ErrorLevel::Info));
    assert!(ErrorLevel::Warning.at_least(ErrorLevel::Info));
    assert!(!ErrorLevel::Info.at_least(ErrorLevel::Warning));
    assert!(!ErrorLevel::Warning.at_least(ErrorLevel::Error));
    assert!(ErrorLevel::Warning.at_least(ErrorLevel::Warning));
}

#[test]
fn rule_value_must_be_a_table() {
    let factory = TomlLintFactory::new("r = 5\n").unwrap();
    let fe = field_error_of(factory.build_lints().unwrap_err());
    assert_eq!(fe.field, "r");
    match fe.error {
        SpecificFieldError::FieldType { expected, actual } => {
            assert_eq!(expected, "table");
            assert_eq!(actual, "integer");
        },
        other => panic!("expected a field-type error, got {:?}", other),
    }
}

#[test]
fn type_field_of_wrong_shape_is_rejected() {
    let factory = TomlLintFactory::new(
        "[r]\ntype = 7\nmessage = \"m\"\npattern = \"x\"\n",
    )
    .unwrap();
    let fe = field_error_of(factory.build_lints().unwrap_err());
    assert_eq!(fe.field, "r.type");
    match fe.error {
        SpecificFieldError::FieldType { expected, actual } => {
            assert_eq!(expected, "string or string-array");
            assert_eq!(actual, "integer");
        },
        other => panic!("expected a field-type error, got {:?}", other),
    }
}

#[test]
fn invalid_pattern_is_a_pattern_error() {
    let factory = TomlLintFactory::new("[r]\nmessage = \"m\"\npattern = \"(\"\n").unwrap();
    let fe = field_error_of(factory.build_lints().unwrap_err());
    assert_eq!(fe.field, "r.pattern");
    assert!(matches!(fe.error, SpecificFieldError::Pattern { .. }));
}

#[test]
fn malformed_document_is_a_syntax_error() {
    let e = TomlLintFactory::new("= not toml").unwrap_err();
    assert!(matches!(e.error, SpecificConfigError::Syntax { .. }));
    assert!(e.file.is_none());
}

#[test]
fn syntax_error_render_names_the_file_once_tagged() {
    let e = TomlLintFactory::new("= not toml").unwrap_err();
    let tagged = e.add_path(Some("relint.toml".to_string()));
    let text = tagged.render();
    assert!(text.starts_with("relint.toml: "));
}

#[test]
fn global_adds_extend_the_registry() {
    let factory = TomlLintFactory::new(
        "[relint.types]\nadd = [[\"web\", \"*.html\"]]\n\n[r]\ntype = \"web\"\nmessage = \"m\"\npattern = \"x\"\n",
    )
    .unwrap();
    let lints = factory.build_lints().unwrap();
    assert_eq!(lints.len(), 1);
    assert!(relint::scan::is_file_supported("page.html", &lints));
    assert!(!relint::scan::is_file_supported("page.css", &lints));
}

#[test]
fn global_add_accepts_table_entries() {
    let factory = TomlLintFactory::new(
        "[relint.types]\nadd = [{name = \"web\", glob = \"*.html\"}]\n\n[r]\ntype = \"web\"\nmessage = \"m\"\npattern = \"x\"\n",
    )
    .unwrap();
    let lints = factory.build_lints().unwrap();
    assert!(relint::scan::is_file_supported("page.html", &lints));
}

#[test]
fn global_add_entry_needs_name_and_glob() {
    let factory = TomlLintFactory::new("[relint.types]\nadd = [[\"onlyname\"]]\n").unwrap();
    let fe = field_error_of(factory.build_lints().unwrap_err());
    match fe.error {
        SpecificFieldError::FieldType { expected, actual } => {
            assert_eq!(expected, "[name, glob]");
            assert_eq!(actual, "[name]");
        },
        other => panic!("expected a field-type error, got {:?}", other),
    }
}

#[test]
fn global_clear_removes_a_default_type() {
    let factory = TomlLintFactory::new(
        "[relint.types]\nclear = [\"rust\"]\n\n[r]\ntype = \"rust\"\nmessage = \"m\"\npattern = \"x\"\n",
    )
    .unwrap();
    let lints = factory.build_lints().unwrap();
    assert!(!relint::scan::is_file_supported("a.rs", &lints));
}

#[test]
fn default_types_serve_rule_selection() {
    let factory = TomlLintFactory::new(
        "[r]\ntype = \"rust\"\nmessage = \"m\"\npattern = \"x\"\n",
    )
    .unwrap();
    let lints = factory.build_lints().unwrap();
    assert!(relint::scan::is_file_supported("a.rs", &lints));
    assert!(!relint::scan::is_file_supported("a.md", &lints));
}

#[test]
fn type_not_excludes_selected_paths() {
    let factory = TomlLintFactory::new(
        "[r]\ntype-not = \"rust\"\nmessage = \"m\"\npattern = \"x\"\n",
    )
    .unwrap();
    let lints = factory.build_lints().unwrap();
    assert!(!relint::scan::is_file_supported("a.rs", &lints));
    assert!(relint::scan::is_file_supported("a.md", &lints));
}

#[test]
fn field_error_prefix_and_render() {
    let e = relint::errors::FieldError::new(
        "severity",
        SpecificFieldError::FieldType { expected: "string".to_string(), actual: "integer".to_string() },
    )
    .prefix("myrule");
    assert_eq!(e.field, "myrule.severity");
    assert_eq!(e.render(), "myrule.severity: Incorrect type: expected 'string', actual 'integer'");
}

#[test]
fn rules_keep_declaration_order() {
    let factory = TomlLintFactory::new(
        "[zeta]\nmessage = \"m\"\npattern = \"x\"\n\n[alpha]\nmessage = \"m\"\npattern = \"x\"\n",
    )
    .unwrap();
    let lints = factory.build_lints().unwrap();
    assert_eq!(lints.len(), 2);
    assert_eq!(lints[0].name, "zeta");
    assert_eq!(lints[1].name, "alpha");
}
