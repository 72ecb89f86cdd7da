use dropwatch::pattern::compile;

#[test]
fn compile_accepts_a_valid_pattern() {
    let compiled = compile("^report-.*\\.csv$").unwrap();
    assert_eq!(compiled.source(), "^report-.*\\.csv$");
}

#[test]
fn compile_refuses_an_unclosed_group() {
    let error = compile("foo(bar").err().unwrap();
    assert_eq!(error.pattern, "foo(bar");
    assert!(!error.reason.is_empty());
}

#[test]
fn compile_refuses_a_pattern_that_is_too_big() {
    assert!(compile("\\w{1000}").is_err());
}

#[test]
fn is_match_finds_the_pattern() {
    let compiled = compile("^report-.*\\.csv$").unwrap();
    assert!(compiled.is_match("report-jan.csv"));
    assert!(compiled.is_match("report-.csv"));
    assert!(!compiled.is_match("report-jan.csv.bak"));
    assert!(!compiled.is_match("summary.csv"));
}

#[test]
fn is_match_searches_anywhere_unless_anchored() {
    let compiled = compile("\\.zip").unwrap();
    assert!(compiled.is_match("archive.zip"));
    assert!(compiled.is_match("archive.zip.part"));
    assert!(!compiled.is_match("archive.tar"));
}

#[test]
fn is_match_agrees_with_the_engine() {
    let patterns = ["^a+$", "[0-9]{3}", "^$", "\\.zip$", "(?i)readme", "^report-.*\\.csv$"];
    let names = ["", "a", "aaa", "ab", "x123y", "12", "archive.zip", "README.md", "report-x.csv"];
    for pattern in patterns {
        let compiled = compile(pattern).unwrap();
        let engine = regex::Regex::new(pattern).unwrap();
        for name in names {
            assert_eq!(compiled.is_match(name), engine.is_match(name), "{:?} on {:?}", pattern, name);
        }
    }
}

#[test]
fn the_pattern_is_not_the_name() {
    // A wrapper that handed its argument back would find every pattern in itself.
    let compiled = compile("^[0-9]+$").unwrap();
    assert!(!compiled.is_match("^[0-9]+$"));
    assert!(compiled.is_match("2024"));
}
