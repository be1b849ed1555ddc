use conf_template::classify::{
    is_config_line, normalized_line, parse_config_line, type_of_value, VariableType,
};
use conf_template::error::TransformError;
use conf_template::render::{
    escape_config_value, get_line_prefix, get_variable_name, variable_line, ConfigLevel,
};

#[test]
fn normalize_strips_comment_and_space() {
    assert_eq!(normalized_line("  #   key = v  "), "key = v");
    assert_eq!(normalized_line("\t[db]\n"), "[db]");
    assert_eq!(normalized_line("##x"), "#x");
    assert_eq!(normalized_line("   "), "");
    assert_eq!(normalized_line("#"), "");
    assert_eq!(normalized_line("\u{3000}a b\u{a0}"), "a b");
}

#[test]
fn config_line_recognition() {
    assert!(is_config_line("a = b"));
    assert!(is_config_line("  a = b"));
    assert!(is_config_line("a = = b"));
    assert!(!is_config_line("a b = c"));
    assert!(!is_config_line("a = b = c"));
    assert!(!is_config_line("a=b"));
    assert!(!is_config_line("ab"));
    assert!(!is_config_line(" = "));
    assert!(!is_config_line(""));
}

#[test]
fn value_types() {
    assert_eq!(type_of_value("true"), VariableType::Boolean);
    assert_eq!(type_of_value("false"), VariableType::Boolean);
    assert_eq!(type_of_value("\"s\""), VariableType::QuotedString);
    assert_eq!(type_of_value("\""), VariableType::QuotedString);
    assert_eq!(type_of_value("42"), VariableType::Transparent);
    assert_eq!(type_of_value("truee"), VariableType::Transparent);
    assert_eq!(type_of_value(""), VariableType::Transparent);
}

#[test]
fn parse_splits_key_and_value() {
    assert_eq!(
        parse_config_line("key = \"v\""),
        Ok(("key".to_string(), "\"v\"".to_string(), VariableType::QuotedString))
    );
    assert_eq!(
        parse_config_line("a = = b"),
        Ok(("a".to_string(), "= b".to_string(), VariableType::Transparent))
    );
}

#[test]
fn parse_rejects_other_lines() {
    assert_eq!(
        parse_config_line("no separator"),
        Err(TransformError::MalformedAssignment { line: "no separator".to_string() })
    );
    assert_eq!(
        parse_config_line("a = b = c"),
        Err(TransformError::MalformedAssignment { line: "a = b = c".to_string() })
    );
}

#[test]
fn line_prefixes() {
    assert_eq!(get_line_prefix(&ConfigLevel::Root), "");
    assert_eq!(get_line_prefix(&ConfigLevel::Section), "  ");
    assert_eq!(get_line_prefix(&ConfigLevel::SubSection), "  ");
}

#[test]
fn variable_names() {
    assert_eq!(get_variable_name("p", &ConfigLevel::Root, "s", "t", "k-1"), "p_k_1");
    assert_eq!(get_variable_name("p", &ConfigLevel::Section, "s-x", "t", "k"), "p_s_x_k");
    assert_eq!(get_variable_name("p-q", &ConfigLevel::SubSection, "s", "t-y", "k"), "p-q_s_t_y_k");
}

#[test]
fn escaping() {
    assert_eq!(escape_config_value("true", &VariableType::Boolean), "\"true\"");
    assert_eq!(escape_config_value("\"a\"", &VariableType::QuotedString), "\"a\"");
    assert_eq!(escape_config_value("7", &VariableType::Transparent), "7");
}

#[test]
fn placeholder_lines() {
    assert_eq!(variable_line("", "k", "p_k", &VariableType::Transparent), "k = {{ p_k }}");
    assert_eq!(variable_line("  ", "k", "p_k", &VariableType::QuotedString), "  k = \"{{ p_k }}\"");
    assert_eq!(variable_line("  ", "k", "p_k", &VariableType::Boolean), "  k = {{ p_k }}");
}
