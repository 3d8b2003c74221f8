use cs2_dumper::formatter::Formatter;
use cs2_dumper::identifier::sanitize_identifier;
use cs2_dumper::orchestrator::PatternMap;
use cs2_dumper::table::NameMap;

fn get_test_patterns() -> PatternMap {
    let mut patterns = NameMap::new();

    let mut client_patterns = NameMap::new();
    client_patterns.insert("dwEntityList".to_string(), "pattern_entity_list".to_string());
    client_patterns.insert("dwLocalPlayer".to_string(), "pattern_local_player".to_string());
    client_patterns.insert("player.health".to_string(), "pattern_player_health".to_string());

    let mut engine_patterns = NameMap::new();
    engine_patterns.insert("dwViewMatrix".to_string(), "pattern_view_matrix".to_string());
    engine_patterns.insert("123_TestPattern".to_string(), "pattern_123_test".to_string());
    engine_patterns.insert("another-pattern!".to_string(), "pattern_another_test".to_string());

    patterns.insert("client.dll".to_string(), client_patterns);
    patterns.insert("engine-2.dll".to_string(), engine_patterns);

    patterns
}

#[test]
fn test_write_cs_patterns() {
    let patterns = get_test_patterns();
    let mut fmt = Formatter::new(4);

    patterns.write_cs(&mut fmt);
    let buffer = fmt.into_string();

    let expected_output = r#"namespace CS2Dumper.Patterns;

public static class GlobalPatterns {
    public static class client_dll {
        public const string dwEntityList = @"pattern_entity_list";
        public const string dwLocalPlayer = @"pattern_local_player";
        public const string player_health = @"pattern_player_health";
    }

    public static class engine_2_dll {
        public const string _123_TestPattern = @"pattern_123_test";
        public const string another_pattern = @"pattern_another_test";
        public const string dwViewMatrix = @"pattern_view_matrix";
    }

}
"#;
    assert_eq!(buffer, expected_output);
}

#[test]
fn test_write_hpp_patterns() {
    let patterns = get_test_patterns();
    let mut fmt = Formatter::new(4);

    patterns.write_hpp(&mut fmt);
    let buffer = fmt.into_string();

    let expected_output = r#"#pragma once

namespace CS2Dumper::Patterns {
    namespace client_dll {
        constexpr const char* dwEntityList = R"-(pattern_entity_list)-";
        constexpr const char* dwLocalPlayer = R"-(pattern_local_player)-";
        constexpr const char* player_health = R"-(pattern_player_health)-";
    }

    namespace engine_2_dll {
        constexpr const char* _123_TestPattern = R"-(pattern_123_test)-";
        constexpr const char* another_pattern = R"-(pattern_another_test)-";
        constexpr const char* dwViewMatrix = R"-(pattern_view_matrix)-";
    }
}
"#;
    assert_eq!(buffer, expected_output);
}

#[test]
fn test_write_rs_patterns() {
    let patterns = get_test_patterns();
    let mut fmt = Formatter::new(4);

    patterns.write_rs(&mut fmt);
    let buffer = fmt.into_string();

    let expected_output = r##"pub mod cs2_dumper_patterns {
    pub mod client_dll {
        pub const DW_ENTITY_LIST: &str = r#"pattern_entity_list"#;
        pub const DW_LOCAL_PLAYER: &str = r#"pattern_local_player"#;
        pub const PLAYER_HEALTH: &str = r#"pattern_player_health"#;
    }

    pub mod engine_2_dll {
        pub const _123_TEST_PATTERN: &str = r#"pattern_123_test"#;
        pub const ANOTHER_PATTERN: &str = r#"pattern_another_test"#;
        pub const DW_VIEW_MATRIX: &str = r#"pattern_view_matrix"#;
    }
}
"##;
    assert_eq!(buffer, expected_output);
}

#[test]
fn sanitize_keeps_plain_names() {
    assert_eq!(sanitize_identifier("dwEntityList", false), "dwEntityList");
    assert_eq!(sanitize_identifier("_leading_underscore", false), "_leading_underscore");
    assert_eq!(sanitize_identifier("trailing_underscore_", false), "trailing_underscore_");
}

#[test]
fn sanitize_replaces_special_characters() {
    assert_eq!(sanitize_identifier("client.dll", false), "client_dll");
    assert_eq!(sanitize_identifier("engine-2.dll", false), "engine_2_dll");
    assert_eq!(sanitize_identifier("player.health", false), "player_health");
}

#[test]
fn sanitize_upper_snake_case_for_rust_constants() {
    assert_eq!(sanitize_identifier("dwEntityList", true), "DW_ENTITY_LIST");
    assert_eq!(sanitize_identifier("client.dll", true), "CLIENT_DLL");
    assert_eq!(sanitize_identifier("engine-2.dll", true), "ENGINE_2_DLL");
    assert_eq!(sanitize_identifier("player.health", true), "PLAYER_HEALTH");
    assert_eq!(sanitize_identifier("another-pattern!", true), "ANOTHER_PATTERN");
}

#[test]
fn sanitize_guards_a_leading_digit() {
    assert_eq!(sanitize_identifier("123_TestPattern", false), "_123_TestPattern");
    assert_eq!(sanitize_identifier("123_TestPattern", true), "_123_TEST_PATTERN");
}

#[test]
fn sanitize_squeezes_runs_of_underscores() {
    assert_eq!(sanitize_identifier("multiple__underscores", false), "multiple_underscores");
    assert_eq!(sanitize_identifier("multiple__underscores", true), "MULTIPLE_UNDERSCORES");
    assert_eq!(sanitize_identifier("a.-.b", false), "a_b");
}

#[test]
fn sanitize_trims_an_underscore_that_the_name_does_not_have() {
    assert_eq!(sanitize_identifier("another-pattern!", false), "another_pattern");
    assert_eq!(sanitize_identifier("with_!$%&/()=?", false), "with");
    assert_eq!(sanitize_identifier("---", false), "_");
}

#[test]
fn sanitize_names_the_empty_identifier() {
    assert_eq!(sanitize_identifier("", false), "_empty_");
    assert_eq!(sanitize_identifier("", true), "_empty_");
    assert_eq!(sanitize_identifier("---", true), "_empty_");
}

#[test]
fn writers_walk_modules_and_patterns_in_ascending_order() {
    let mut b = NameMap::new();
    b.insert("zeta".to_string(), "2".to_string());
    b.insert("alpha".to_string(), "1".to_string());
    let mut a = NameMap::new();
    a.insert("only".to_string(), "0".to_string());
    let mut patterns: PatternMap = NameMap::new();
    patterns.insert("b".to_string(), b);
    patterns.insert("a".to_string(), a);

    let mut cs = Formatter::new(1);
    patterns.write_cs(&mut cs);
    assert_eq!(
        cs.as_str(),
        "namespace CS2Dumper.Patterns;\n\npublic static class GlobalPatterns {\n public static class a {\n  public const string only = @\"0\";\n }\n\n public static class b {\n  public const string alpha = @\"1\";\n  public const string zeta = @\"2\";\n }\n\n}\n"
    );

    let mut hpp = Formatter::new(1);
    patterns.write_hpp(&mut hpp);
    assert_eq!(
        hpp.as_str(),
        "#pragma once\n\nnamespace CS2Dumper::Patterns {\n namespace a {\n  constexpr const char* only = R\"-(0)-\";\n }\n\n namespace b {\n  constexpr const char* alpha = R\"-(1)-\";\n  constexpr const char* zeta = R\"-(2)-\";\n }\n}\n"
    );

    let mut rs = Formatter::new(1);
    patterns.write_rs(&mut rs);
    assert_eq!(
        rs.as_str(),
        "pub mod cs2_dumper_patterns {\n pub mod a {\n  pub const ONLY: &str = r#\"0\"#;\n }\n\n pub mod b {\n  pub const ALPHA: &str = r#\"1\"#;\n  pub const ZETA: &str = r#\"2\"#;\n }\n}\n"
    );
}
