use time_mocker::rules::{rule_from_input, CompiledRules, PatternKind, Rule};

#[test]
fn glob_matches_name() {
    let rules = vec![Rule {
        pattern: "*chrome*".into(),
        kind: PatternKind::Glob,
        enabled: true,
    }];
    let c = CompiledRules::compile(&rules);
    assert!(c.matches("", "chrome.exe"));
    assert!(!c.matches("", "firefox.exe"));
}

#[test]
fn regex_matches_path() {
    let rules = vec![Rule {
        pattern: r"^.*\\MyApp\.exe$".into(),
        kind: PatternKind::Regex,
        enabled: true,
    }];
    let c = CompiledRules::compile(&rules);
    assert!(c.matches(r"C:\foo\MyApp.exe", "MyApp.exe"));
    assert!(!c.matches(r"C:\foo\Other.exe", "Other.exe"));
}

#[test]
fn disabled_rules_skipped() {
    let rules = vec![Rule {
        pattern: "*".into(),
        kind: PatternKind::Glob,
        enabled: false,
    }];
    let c = CompiledRules::compile(&rules);
    assert!(!c.matches("anything", "anything"));
}

#[test]
fn invalid_patterns_are_skipped_not_fatal() {
    let rules = vec![
        Rule { pattern: "a[".into(), kind: PatternKind::Glob, enabled: true },
        Rule { pattern: "(unclosed".into(), kind: PatternKind::Regex, enabled: true },
        Rule { pattern: "note*".into(), kind: PatternKind::Glob, enabled: true },
    ];
    let c = CompiledRules::compile(&rules);
    assert!(c.matches("C:\\x.exe", "notepad.exe"));
    assert!(!c.matches("C:\\x.exe", "calc.exe"));
}

#[test]
fn empty_and_default_rules_match_nothing() {
    let c = CompiledRules::compile(&[]);
    assert!(!c.matches("a", "b"));
    let d = CompiledRules::default();
    assert!(!d.matches("a", "b"));
}

#[test]
fn regex_is_a_search_anywhere() {
    let rules = vec![Rule { pattern: "game".into(), kind: PatternKind::Regex, enabled: true }];
    let c = CompiledRules::compile(&rules);
    assert!(c.matches("D:\\games\\x.exe", "x.exe"));
    assert!(!c.matches("D:\\GAMES\\x.exe", "x.exe"));
}

#[test]
fn pattern_kind_labels() {
    assert_eq!(PatternKind::Glob.label(), "Glob");
    assert_eq!(PatternKind::Regex.label(), "Regex");
}

#[test]
fn rule_from_typed_input() {
    let r = rule_from_input("  *game*\t", PatternKind::Glob).unwrap();
    assert_eq!(r.pattern, "*game*");
    assert_eq!(r.kind, PatternKind::Glob);
    assert!(r.enabled);
    assert!(rule_from_input(" \n ", PatternKind::Regex).is_none());
    assert!(rule_from_input("", PatternKind::Regex).is_none());
}

#[test]
fn oversized_glob_is_skipped_not_fatal() {
    // Parses as a glob, but its automaton exceeds globset's size limit: the
    // rule is skipped, so even a candidate it would match is not matched.
    let n = 1_000_000;
    let huge = Rule { pattern: "?".repeat(n), kind: PatternKind::Glob, enabled: true };
    let small = Rule { pattern: "*chrome*".into(), kind: PatternKind::Glob, enabled: true };
    let c = CompiledRules::compile(&[huge, small]);
    assert!(!c.matches("", &"a".repeat(n)));
    assert!(c.matches("", "chrome.exe"));
}
