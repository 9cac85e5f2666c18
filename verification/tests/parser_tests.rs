use cmake_runner::parser::{parse_catalog, ParseError};

#[test]
fn example_declare_then_properties() {
    let text = "declare executable(app1 main.cpp)\nset target properties(app1 PROPERTIES OUTPUT_NAME \"app1_bin\")\n";
    let targets = parse_catalog(text).unwrap();
    assert_eq!(targets.len(), 1);
    assert_eq!(targets[0].target, "app1");
    assert_eq!(targets[0].file_name, "app1_bin");
}

#[test]
fn declaration_order_is_kept() {
    let text = "declare executable(zeta z.cpp)\ndeclare executable(alpha a.cpp)\ndeclare executable(mid m.cpp)\n";
    let targets = parse_catalog(text).unwrap();
    let names: Vec<&str> = targets.iter().map(|t| t.target.as_str()).collect();
    assert_eq!(names, vec!["zeta", "alpha", "mid"]);
    assert!(targets.iter().all(|t| t.file_name.is_empty()));
}

#[test]
fn unmatched_properties_line_is_ignored() {
    let text = "declare executable(app1 main.cpp)\nset target properties(ghost PROPERTIES OUTPUT_NAME \"g\")\n";
    let targets = parse_catalog(text).unwrap();
    assert_eq!(targets.len(), 1);
    assert_eq!(targets[0].target, "app1");
    assert_eq!(targets[0].file_name, "");
}

#[test]
fn unrelated_lines_are_ignored() {
    let text = "# a comment\n\nproject(hello)\ndeclare executable(app1 main.cpp)\nenable_testing()\n";
    let targets = parse_catalog(text).unwrap();
    assert_eq!(targets.len(), 1);
    assert_eq!(targets[0].target, "app1");
}

#[test]
fn declare_without_parenthesis_is_fatal() {
    let text = "declare executable app1 main.cpp\n";
    assert!(matches!(parse_catalog(text), Err(ParseError::MalformedLine)));
}

#[test]
fn properties_without_quote_is_fatal_for_declared_target() {
    let text = "declare executable(app1 main.cpp)\nset target properties(app1 PROPERTIES OUTPUT_NAME app1_bin)\n";
    assert!(matches!(parse_catalog(text), Err(ParseError::MalformedLine)));
}

#[test]
fn properties_without_parenthesis_is_fatal() {
    let text = "set target properties app1\n";
    assert!(matches!(parse_catalog(text), Err(ParseError::MalformedLine)));
}

#[test]
fn last_properties_line_wins() {
    let text = "declare executable(app1 main.cpp)\nset target properties(app1 PROPERTIES OUTPUT_NAME \"first\")\nset target properties(app1 PROPERTIES OUTPUT_NAME \"second\")\n";
    let targets = parse_catalog(text).unwrap();
    assert_eq!(targets[0].file_name, "second");
}

#[test]
fn duplicate_declaration_resets_file_name_and_keeps_place() {
    let text = "declare executable(app1 main.cpp)\nset target properties(app1 PROPERTIES OUTPUT_NAME \"bin\")\ndeclare executable(app2 other.cpp)\ndeclare executable(app1 again.cpp)\n";
    let targets = parse_catalog(text).unwrap();
    let names: Vec<&str> = targets.iter().map(|t| t.target.as_str()).collect();
    assert_eq!(names, vec!["app1", "app2"]);
    assert_eq!(targets[0].file_name, "");
}

#[test]
fn empty_text_gives_empty_catalog() {
    let targets = parse_catalog("").unwrap();
    assert!(targets.is_empty());
}

#[test]
fn windows_line_endings_are_accepted() {
    let text = "declare executable(app1 main.cpp)\r\nset target properties(app1 PROPERTIES OUTPUT_NAME \"bin\")\r\n";
    let targets = parse_catalog(text).unwrap();
    assert_eq!(targets[0].target, "app1");
    assert_eq!(targets[0].file_name, "bin");
}

#[test]
fn identifier_without_space_runs_to_line_end() {
    let text = "declare executable(app1)\n";
    let targets = parse_catalog(text).unwrap();
    assert_eq!(targets[0].target, "app1)");
}

#[test]
fn no_trailing_newline_is_accepted() {
    let text = "declare executable(app1 main.cpp)";
    let targets = parse_catalog(text).unwrap();
    assert_eq!(targets.len(), 1);
    assert_eq!(targets[0].target, "app1");
}
