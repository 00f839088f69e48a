use reg_sort::config::{
    Config, ConfigError, CoreProperties, FileConfig, MatchingRegexRule, MatchingRule,
};

fn rule(pattern: &str, target: &str) -> MatchingRule {
    MatchingRule { pattern: pattern.to_string(), target: target.to_string() }
}

fn properties(source_dir: &str) -> CoreProperties {
    CoreProperties { source_dir: source_dir.to_string(), log: true, dry_run: false }
}

#[test]
fn test_parse_config_from_file() {
    // given
    let file_config = FileConfig {
        config: properties("tests/resources/config/temp/input"),
        rules: vec![
            rule(r".*\.txt$", "tests/resources/config/temp/output/txt"),
            rule(r".*\.csv$", "tests/resources/config/temp/output/csv"),
        ],
    };

    // when
    let parsed_config = Config::from_file(file_config, true).unwrap();

    // then
    let core_config = &parsed_config.config;
    assert_eq!(core_config.source_dir, "tests/resources/config/temp/input".to_string());
    assert_eq!(core_config.dry_run, false);
    assert_eq!(core_config.log, true);

    let rules = &parsed_config.rules;
    assert_eq!(rules.len(), 2);

    let first_rule = &rules[0];
    assert!(first_rule.regex.is_match("file.txt"));
    assert!(first_rule.regex.is_match("file123.txt"));
    assert_eq!(first_rule.target, "tests/resources/config/temp/output/txt");

    let second_rule = &rules[1];
    assert!(second_rule.regex.is_match("file.csv"));
    assert!(second_rule.regex.is_match("file123.csv"));
    assert_eq!(second_rule.target, "tests/resources/config/temp/output/csv");
}

#[test]
fn source_that_is_no_directory_is_rejected() {
    let file_config = FileConfig {
        config: properties("tests/resources/config/temp/missing"),
        rules: vec![rule(r"\.txt$", "out/txt")],
    };
    let built = Config::from_file(file_config, false);
    assert_eq!(built.err(), Some(ConfigError::SourceNotADirectory));
}

#[test]
fn source_is_looked_at_before_the_patterns() {
    let file_config =
        FileConfig { config: properties("missing"), rules: vec![rule("foo(bar", "out")] };
    let built = Config::from_file(file_config, false);
    assert_eq!(built.err(), Some(ConfigError::SourceNotADirectory));
}

#[test]
fn first_invalid_pattern_is_reported() {
    let file_config = FileConfig {
        config: properties("in"),
        rules: vec![
            rule(r"\.txt$", "out/txt"),
            rule("foo(bar", "out/foo"),
            rule(r"\.csv$", "out/csv"),
            rule("[unclosed", "out/other"),
        ],
    };
    let built = Config::from_file(file_config, true);
    assert_eq!(built.err(), Some(ConfigError::InvalidPattern { index: 1 }));
}

#[test]
fn configuration_without_rules_is_accepted() {
    let file_config = FileConfig { config: properties("in"), rules: vec![] };
    let built = Config::from_file(file_config, true).unwrap();
    assert!(built.rules.is_empty());
    assert_eq!(built.config, properties("in"));
}

#[test]
fn rules_keep_their_order_and_targets() {
    let file_config = FileConfig {
        config: properties("in"),
        rules: vec![rule("a", "first"), rule("b", "second"), rule("a", "third")],
    };
    let built = Config::from_file(file_config, true).unwrap();
    let targets: Vec<&str> = built.rules.iter().map(|r| r.target.as_str()).collect();
    assert_eq!(targets, vec!["first", "second", "third"]);
    let patterns: Vec<&str> = built.rules.iter().map(|r| r.regex.as_str()).collect();
    assert_eq!(patterns, vec!["a", "b", "a"]);
}

#[test]
fn new_compiles_the_pattern_of_the_rule() {
    let compiled = MatchingRegexRule::new(&rule(r"^report\d+\.txt$", "out/reports"));
    assert_eq!(compiled.target, "out/reports");
    assert_eq!(compiled.regex.as_str(), r"^report\d+\.txt$");
    assert!(compiled.regex.is_match("report42.txt"));
    assert!(!compiled.regex.is_match("report.txt"));
    assert!(!compiled.regex.is_match("^report\\d+\\.txt$"));
}

#[test]
fn try_new_turns_down_an_invalid_pattern() {
    assert!(MatchingRegexRule::try_new(&rule("foo(bar", "out")).is_none());
    assert!(MatchingRegexRule::try_new(&rule(r"\w{1000}", "out")).is_none());
    let compiled = MatchingRegexRule::try_new(&rule("foo(bar)?", "out")).unwrap();
    assert!(compiled.regex.is_match("a foo"));
    assert_eq!(compiled.target, "out");
}
