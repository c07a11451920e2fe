use passclip::rules::{PatternRule, RulesConfig};

#[test]
fn default_rules_are_the_five_builtins() {
    let r = RulesConfig::default();
    assert_eq!(r.version, 1);
    let names: Vec<&str> = r.rules.iter().map(|x| x.name.as_str()).collect();
    assert_eq!(
        names,
        vec![
            "AWS Access Key",
            "GitHub Personal Access Token",
            "GitLab Personal Access Token",
            "PEM Private Key",
            "JWT Header"
        ]
    );
    assert_eq!(r.rules[0].pattern, r"AKIA[0-9A-Z]{16}");
    assert_eq!(r.rules[2].pattern, r"glpat-[a-zA-Z0-9\-]{20}");
}

#[test]
fn compile_patterns_lists_patterns_in_order() {
    let r = RulesConfig {
        version: 2,
        rules: vec![
            PatternRule { name: "a".to_string(), pattern: "x+".to_string() },
            PatternRule { name: "b".to_string(), pattern: "y?".to_string() },
        ],
    };
    assert_eq!(r.compile_patterns(), vec!["x+".to_string(), "y?".to_string()]);
    assert_eq!(RulesConfig::default().compile_patterns().len(), 5);
}
