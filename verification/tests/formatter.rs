use cs2_dumper::formatter::Formatter;
use cs2_dumper::orchestrator::PatternMap;
use cs2_dumper::patterns::{constant_of, heading_of, module_name, Language};
use cs2_dumper::table::NameMap;

#[test]
fn new_formatter_has_written_nothing() {
    let fmt = Formatter::new(4);
    assert_eq!(fmt.as_str(), "");
    assert_eq!(fmt.indent_level(), 0);
}

#[test]
fn lines_stand_behind_the_indentation_of_their_block() {
    let mut fmt = Formatter::new(2);
    fmt.line("a");
    fmt.open_block("outer");
    fmt.line("b");
    fmt.open_block("inner");
    assert_eq!(fmt.indent_level(), 2);
    fmt.line("c");
    fmt.close_block(false);
    fmt.close_block(true);
    fmt.line("d");
    assert_eq!(fmt.indent_level(), 0);
    assert_eq!(fmt.into_string(), "a\nouter {\n  b\n  inner {\n    c\n  }\n};\nd\n");
}

#[test]
fn empty_line_has_no_indentation() {
    let mut fmt = Formatter::new(4);
    fmt.open_block("x");
    fmt.empty_line();
    fmt.line("y");
    fmt.close_block(false);
    assert_eq!(fmt.as_str(), "x {\n\n    y\n}\n");
}

#[test]
fn indentation_of_no_width_writes_no_blanks() {
    let mut fmt = Formatter::new(0);
    fmt.open_block("x");
    fmt.line("y");
    fmt.close_block(false);
    assert_eq!(fmt.as_str(), "x {\ny\n}\n");
}

#[test]
fn write_str_appends_the_text_as_it_stands() {
    let mut fmt = Formatter::new(4);
    fmt.open_block("x");
    fmt.write_str("{\n  \"a\": 1\n}");
    assert_eq!(fmt.as_str(), "x {\n{\n  \"a\": 1\n}");
}

#[test]
fn module_names_by_language() {
    assert_eq!(module_name(Language::CSharp, "engine-2.dll"), "engine_2_dll");
    assert_eq!(module_name(Language::Cpp, "Client.dll"), "Client_dll");
    assert_eq!(module_name(Language::Rust, "Client.dll"), "client_dll");
    assert_eq!(heading_of(Language::CSharp, "client.dll"), "public static class client_dll");
    assert_eq!(heading_of(Language::Cpp, "client.dll"), "namespace client_dll");
    assert_eq!(heading_of(Language::Rust, "client.dll"), "pub mod client_dll");
}

#[test]
fn constants_by_language() {
    assert_eq!(
        constant_of(Language::CSharp, "dwFoo", "48 ' 89"),
        "public const string dwFoo = @\"48 ' 89\";"
    );
    assert_eq!(
        constant_of(Language::Cpp, "dwFoo", "48 ' 89"),
        "constexpr const char* dwFoo = R\"-(48 ' 89)-\";"
    );
    assert_eq!(
        constant_of(Language::Rust, "dwFoo", "48 ' 89"),
        "pub const DW_FOO: &str = r#\"48 ' 89\"#;"
    );
}

#[test]
fn writers_of_an_empty_map() {
    let patterns: PatternMap = NameMap::new();

    let mut cs = Formatter::new(4);
    patterns.write_cs(&mut cs);
    assert_eq!(
        cs.as_str(),
        "namespace CS2Dumper.Patterns;\n\npublic static class GlobalPatterns {\n}\n"
    );

    let mut hpp = Formatter::new(4);
    patterns.write_hpp(&mut hpp);
    assert_eq!(hpp.as_str(), "#pragma once\n\nnamespace CS2Dumper::Patterns {\n}\n");

    let mut rs = Formatter::new(4);
    patterns.write_rs(&mut rs);
    assert_eq!(rs.as_str(), "pub mod cs2_dumper_patterns {\n}\n");
}

#[test]
fn writers_of_one_module_without_patterns() {
    let mut patterns: PatternMap = NameMap::new();
    patterns.insert("client.dll".to_string(), NameMap::new());

    let mut cs = Formatter::new(2);
    patterns.write_cs(&mut cs);
    assert_eq!(
        cs.as_str(),
        "namespace CS2Dumper.Patterns;\n\npublic static class GlobalPatterns {\n  public static class client_dll {\n  }\n\n}\n"
    );

    let mut rs = Formatter::new(2);
    patterns.write_rs(&mut rs);
    assert_eq!(rs.as_str(), "pub mod cs2_dumper_patterns {\n  pub mod client_dll {\n  }\n}\n");
}
