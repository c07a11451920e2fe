//! Detection rules: named regular expressions for well-known secret formats.
use vstd::prelude::*;

verus! {

/// A named detection pattern.
pub struct PatternRule {
    pub name: String,
    pub pattern: String,
}

/// The rule file: a format version and the rules it lists.
pub struct RulesConfig {
    pub version: u32,
    pub rules: Vec<PatternRule>,
}

/// The names of the built-in rules, in order.
pub open spec fn default_rule_names() -> Seq<Seq<char>> {
    seq![
        "AWS Access Key"@,
        "GitHub Personal Access Token"@,
        "GitLab Personal Access Token"@,
        "PEM Private Key"@,
        "JWT Header"@,
    ]
}

/// The patterns of the built-in rules, in order.
pub open spec fn default_rule_patterns() -> Seq<Seq<char>> {
    seq![
        "AKIA[0-9A-Z]{16}"@,
        "ghp_[a-zA-Z0-9]{36}"@,
        "glpat-[a-zA-Z0-9\\-]{20}"@,
        "-----BEGIN [A-Z ]+ PRIVATE KEY-----"@,
        "eyJhbGciOiJSUzI1NiIsI"@,
    ]
}

/// The patterns of a list of rules, in order.
pub open spec fn rule_patterns(rules: Seq<PatternRule>) -> Seq<Seq<char>> {
    rules.map_values(|r: PatternRule| r.pattern@)
}

/// The names of a list of rules, in order.
pub open spec fn rule_names(rules: Seq<PatternRule>) -> Seq<Seq<char>> {
    rules.map_values(|r: PatternRule| r.name@)
}

impl PatternRule {
    fn named(name: &str, pattern: &str) -> (r: PatternRule)
        ensures
            r.name@ == name@,
            r.pattern@ == pattern@,
    {
        PatternRule { name: name.to_owned(), pattern: pattern.to_owned() }
    }
}

impl Default for RulesConfig {
    /// Version 1 with the five built-in rules.
    fn default() -> (r: Self)
        ensures
            r.version == 1,
            rule_names(r.rules@) == default_rule_names(),
            rule_patterns(r.rules@) == default_rule_patterns(),
    {
        let mut rules: Vec<PatternRule> = Vec::new();
        rules.push(PatternRule::named("AWS Access Key", "AKIA[0-9A-Z]{16}"));
        rules.push(PatternRule::named("GitHub Personal Access Token", "ghp_[a-zA-Z0-9]{36}"));
        rules.push(PatternRule::named("GitLab Personal Access Token", "glpat-[a-zA-Z0-9\\-]{20}"));
        rules.push(PatternRule::named("PEM Private Key", "-----BEGIN [A-Z ]+ PRIVATE KEY-----"));
        rules.push(PatternRule::named("JWT Header", "eyJhbGciOiJSUzI1NiIsI"));
        let r = RulesConfig { version: 1, rules };
        proof {
            assert(rule_names(r.rules@) =~= default_rule_names());
            assert(rule_patterns(r.rules@) =~= default_rule_patterns());
        }
        r
    }
}

impl RulesConfig {
    /// The patterns of all rules, in rule order.
    pub fn compile_patterns(&self) -> (r: Vec<String>)
        ensures
            r.deep_view() == rule_patterns(self.rules@),
    {
        let mut out: Vec<String> = Vec::new();
        let n = self.rules.len();
        for i in 0..n
            invariant
                n == self.rules@.len(),
                out@.len() == i,
                forall|j: int| 0 <= j < i ==> (#[trigger] out@[j])@ == self.rules@[j].pattern@,
        {
            out.push(self.rules[i].pattern.clone());
        }
        proof {
            assert(out.deep_view() =~= rule_patterns(self.rules@));
        }
        out
    }
}

} // verus!
