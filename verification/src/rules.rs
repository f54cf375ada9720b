//! Auto-inject rules: glob or regex patterns matched against a process's
//! image path and name.

use vstd::prelude::*;

verus! {

/// How a rule's pattern is read.
#[derive(Clone, Copy, Debug, PartialEq, Eq, Structural)]
pub enum PatternKind {
    Glob,
    Regex,
}

impl PatternKind {
    /// Display label of the kind.
    pub fn label(self) -> (l: &'static str)
        ensures
            l@ == (match self {
                PatternKind::Glob => "Glob"@,
                PatternKind::Regex => "Regex"@,
            }),
    {
        match self {
            PatternKind::Glob => "Glob",
            PatternKind::Regex => "Regex",
        }
    }
}

/// A user's auto-inject rule.
#[derive(Clone, Debug)]
pub struct Rule {
    pub pattern: String,
    pub kind: PatternKind,
    pub enabled: bool,
}

/// What `str::trim` returns: the text without leading and trailing Unicode
/// white space.
pub uninterp spec fn trimmed(s: Seq<char>) -> Seq<char>;

/// The text without leading and trailing white space (`str::trim`).
#[verifier::external_body]
fn trim(s: &str) -> (t: &str)
    ensures
        t@ == trimmed(s@),
{
    s.trim()
}

/// The rule that the "+ Add Rule" button adds for the typed pattern: enabled,
/// with the pattern trimmed; `None` when nothing but white space was typed.
pub fn rule_from_input(input: &str, kind: PatternKind) -> (r: Option<Rule>)
    ensures
        trimmed(input@).len() == 0 ==> r is None,
        trimmed(input@).len() != 0 ==> (r matches Some(rule) && rule.pattern@ == trimmed(input@)
            && rule.kind == kind && rule.enabled),
{
    let t = trim(input);
    if t.is_empty() {
        None
    } else {
        Some(Rule { pattern: String::from_str(t), kind, enabled: true })
    }
}

/// Whether `globset::Glob::new` accepts a pattern (default options).
pub uninterp spec fn glob_parses(pattern: Seq<char>) -> bool;

/// Whether `globset::GlobSetBuilder::build` succeeds on the set that holds
/// only the glob parsed from `pattern` (it fails when the glob's automaton
/// exceeds globset's size limit).
pub uninterp spec fn glob_set_builds(pattern: Seq<char>) -> bool;

/// What `globset::GlobSet::is_match` answers for a candidate path, with the
/// set built from the glob parsed from `pattern` alone (documented as: any
/// glob of the set matches the path).
pub uninterp spec fn glob_matches(pattern: Seq<char>, candidate: Seq<char>) -> bool;

/// Whether `regex::Regex::new` accepts a pattern.
pub uninterp spec fn regex_parses(pattern: Seq<char>) -> bool;

/// What `regex::Regex::is_match` answers for a haystack, with the regex
/// compiled from `pattern` by `Regex::new`.
pub uninterp spec fn regex_matches(pattern: Seq<char>, haystack: Seq<char>) -> bool;

/// Whether `globset::Glob::new` accepts the pattern.
#[verifier::external_body]
fn glob_new_is_ok(pattern: &str) -> (ok: bool)
    ensures
        ok == glob_parses(pattern@),
{
    globset::Glob::new(pattern).is_ok()
}

/// Whether a parsed glob can be built into a matcher:
/// `globset::GlobSetBuilder::build` on the set holding only this glob. Unlike
/// `Glob::compile_matcher`, which panics when the glob's automaton is too
/// large, `build` reports that as an error.
#[verifier::external_body]
fn glob_set_builds_ok(pattern: &str) -> (ok: bool)
    requires
        glob_parses(pattern@),
    ensures
        ok == glob_set_builds(pattern@),
{
    match globset::Glob::new(pattern) {
        Ok(g) => {
            let mut builder = globset::GlobSetBuilder::new();
            builder.add(g);
            builder.build().is_ok()
        },
        Err(_) => false,
    }
}

/// Matches a candidate against a glob pattern: `globset::Glob::new`, then a
/// `GlobSetBuilder` holding that glob alone, `build`, and `GlobSet::is_match`.
/// The answer is named, not stated; it depends on the pattern and the
/// candidate (globset treats the platform's path separators alike, which is
/// fixed for a build).
#[verifier::external_body]
fn glob_is_match(pattern: &str, candidate: &str) -> (m: bool)
    requires
        glob_parses(pattern@),
        glob_set_builds(pattern@),
    ensures
        m == glob_matches(pattern@, candidate@),
{
    match globset::Glob::new(pattern) {
        Ok(g) => {
            let mut builder = globset::GlobSetBuilder::new();
            builder.add(g);
            match builder.build() {
                Ok(set) => set.is_match(candidate),
                Err(_) => false,
            }
        },
        Err(_) => false,
    }
}

/// Whether `regex::Regex::new` accepts the pattern.
#[verifier::external_body]
fn regex_new_is_ok(pattern: &str) -> (ok: bool)
    ensures
        ok == regex_parses(pattern@),
{
    regex::Regex::new(pattern).is_ok()
}

/// Matches a haystack against a regex pattern: `regex::Regex::new`, then
/// `Regex::is_match` (a match anywhere in the haystack). The answer is named,
/// not stated.
#[verifier::external_body]
fn regex_is_match(pattern: &str, haystack: &str) -> (m: bool)
    requires
        regex_parses(pattern@),
    ensures
        m == regex_matches(pattern@, haystack@),
{
    match regex::Regex::new(pattern) {
        Ok(r) => r.is_match(haystack),
        Err(_) => false,
    }
}

/// Whether a pattern of the given kind compiles.
pub open spec fn pattern_compiles(kind: PatternKind, pattern: Seq<char>) -> bool {
    match kind {
        PatternKind::Glob => glob_parses(pattern) && glob_set_builds(pattern),
        PatternKind::Regex => regex_parses(pattern),
    }
}

/// Whether a compiled pattern of the given kind matches `s`.
pub open spec fn pattern_matches(kind: PatternKind, pattern: Seq<char>, s: Seq<char>) -> bool {
    match kind {
        PatternKind::Glob => glob_matches(pattern, s),
        PatternKind::Regex => regex_matches(pattern, s),
    }
}

/// The patterns that compiling `rules` keeps, in order: those of the enabled
/// rules that compile.
pub open spec fn compiled_patterns(rules: Seq<Rule>) -> Seq<(PatternKind, Seq<char>)>
    decreases rules.len(),
{
    if rules.len() == 0 {
        Seq::empty()
    } else {
        let prev = compiled_patterns(rules.drop_last());
        let r = rules.last();
        if r.enabled && pattern_compiles(r.kind, r.pattern@) {
            prev.push((r.kind, r.pattern@))
        } else {
            prev
        }
    }
}

/// Whether any of `patterns` matches the path or the name.
pub open spec fn any_pattern_matches(patterns: Seq<(PatternKind, Seq<char>)>, path: Seq<char>, name: Seq<char>) -> bool {
    exists|i: int|
        0 <= i < patterns.len() && (pattern_matches(patterns[i].0, patterns[i].1, path)
            || pattern_matches(patterns[i].0, patterns[i].1, name))
}

/// One compiled pattern.
struct Matcher {
    kind: PatternKind,
    pattern: String,
}

/// The enabled rules whose patterns compile, ready for matching.
pub struct CompiledRules {
    matchers: Vec<Matcher>,
}

impl CompiledRules {
    /// Every kept pattern compiles.
    #[verifier::type_invariant]
    spec fn inv(self) -> bool {
        forall|i: int| 0 <= i < self.matchers@.len() ==> #[trigger] pattern_compiles(
            self.matchers@[i].kind,
            self.matchers@[i].pattern@,
        )
    }

    /// The kept patterns, in rule order.
    pub closed spec fn patterns(&self) -> Seq<(PatternKind, Seq<char>)> {
        Seq::new(self.matchers@.len(), |i: int| (self.matchers@[i].kind, self.matchers@[i].pattern@))
    }

    /// Compiles the enabled rules; a rule whose pattern does not compile (a
    /// glob that does not parse or whose matcher cannot be built, a regex
    /// that does not parse) is skipped.
    pub fn compile(rules: &[Rule]) -> (c: Self)
        ensures
            c.patterns() == compiled_patterns(rules@),
            forall|i: int|
                0 <= i < rules@.len() && (#[trigger] rules@[i]).enabled
                    && pattern_compiles(rules@[i].kind, rules@[i].pattern@) ==> c.patterns().contains(
                    (rules@[i].kind, rules@[i].pattern@),
                ),
            forall|j: int|
                #![trigger c.patterns()[j]]
                0 <= j < c.patterns().len() ==> exists|i: int|
                    0 <= i < rules@.len() && (#[trigger] rules@[i]).enabled
                        && pattern_compiles(rules@[i].kind, rules@[i].pattern@)
                        && c.patterns()[j].0 == rules@[i].kind && c.patterns()[j].1 =~= rules@[i].pattern@,
    {
        let mut matchers: Vec<Matcher> = Vec::new();
        let mut i: usize = 0;
        while i < rules.len()
            invariant
                i <= rules@.len(),
                Seq::new(matchers@.len(), |j: int| (matchers@[j].kind, matchers@[j].pattern@))
                    == compiled_patterns(rules@.take(i as int)),
                forall|j: int| 0 <= j < matchers@.len() ==> #[trigger] pattern_compiles(
                    matchers@[j].kind,
                    matchers@[j].pattern@,
                ),
            decreases rules@.len() - i,
        {
            let r = &rules[i];
            assert(rules@.take(i + 1).drop_last() =~= rules@.take(i as int));
            let ghost prev = Seq::new(matchers@.len(), |j: int| (matchers@[j].kind, matchers@[j].pattern@));
            if r.enabled {
                let ok = match r.kind {
                    PatternKind::Glob => glob_new_is_ok(r.pattern.as_str())
                        && glob_set_builds_ok(r.pattern.as_str()),
                    PatternKind::Regex => regex_new_is_ok(r.pattern.as_str()),
                };
                if ok {
                    matchers.push(Matcher { kind: r.kind, pattern: r.pattern.clone() });
                    assert(Seq::new(matchers@.len(), |j: int| (matchers@[j].kind, matchers@[j].pattern@))
                        =~= prev.push((r.kind, r.pattern@)));
                }
            }
            i = i + 1;
        }
        assert(rules@.take(rules@.len() as int) =~= rules@);
        proof {
            lemma_compile_keeps_enabled_compiling_rules(rules@);
        }
        CompiledRules { matchers }
    }

    /// Whether any kept pattern matches the process's image path or its
    /// name.
    pub fn matches(&self, path: &str, name: &str) -> (m: bool)
        ensures
            m == any_pattern_matches(self.patterns(), path@, name@),
    {
        proof {
            use_type_invariant(self);
        }
        let mut i: usize = 0;
        while i < self.matchers.len()
            invariant
                i <= self.matchers@.len(),
                forall|j: int| 0 <= j < self.matchers@.len() ==> #[trigger] pattern_compiles(
                    self.matchers@[j].kind,
                    self.matchers@[j].pattern@,
                ),
                forall|j: int| 0 <= j < i ==> !(pattern_matches(self.patterns()[j].0, self.patterns()[j].1, path@)
                    || pattern_matches(self.patterns()[j].0, self.patterns()[j].1, name@)),
            decreases self.matchers@.len() - i,
        {
            let m = &self.matchers[i];
            assert(pattern_compiles(m.kind, m.pattern@));
            let hit = match m.kind {
                PatternKind::Glob => glob_is_match(m.pattern.as_str(), path) || glob_is_match(m.pattern.as_str(), name),
                PatternKind::Regex => regex_is_match(m.pattern.as_str(), path) || regex_is_match(m.pattern.as_str(), name),
            };
            assert(self.patterns()[i as int] == (m.kind, m.pattern@));
            if hit {
                return true;
            }
            i = i + 1;
        }
        false
    }
}

impl Default for CompiledRules {
    fn default() -> (c: Self)
        ensures
            c.patterns().len() == 0,
    {
        CompiledRules { matchers: Vec::new() }
    }
}

/// Disabled rules never match: rules that are all disabled compile to
/// nothing, so no process matches them.
pub proof fn lemma_disabled_rules_match_nothing(rules: Seq<Rule>, path: Seq<char>, name: Seq<char>)
    requires
        forall|i: int| 0 <= i < rules.len() ==> !(#[trigger] rules[i]).enabled,
    ensures
        compiled_patterns(rules) == Seq::<(PatternKind, Seq<char>)>::empty(),
        !any_pattern_matches(compiled_patterns(rules), path, name),
    decreases rules.len(),
{
    if rules.len() > 0 {
        let front = rules.drop_last();
        assert forall|i: int| 0 <= i < front.len() implies !(#[trigger] front[i]).enabled by {
            assert(front[i] == rules[i]);
        }
        lemma_disabled_rules_match_nothing(front, path, name);
    }
}

/// Compiling keeps exactly the enabled rules whose patterns compile: every
/// such rule's pattern is kept, every kept pattern is such a rule's, and
/// nothing else is added.
pub proof fn lemma_compile_keeps_enabled_compiling_rules(rules: Seq<Rule>)
    ensures
        forall|i: int|
            0 <= i < rules.len() && (#[trigger] rules[i]).enabled && pattern_compiles(rules[i].kind, rules[i].pattern@)
                ==> compiled_patterns(rules).contains((rules[i].kind, rules[i].pattern@)),
        forall|j: int|
            #![trigger compiled_patterns(rules)[j]]
            0 <= j < compiled_patterns(rules).len() ==> exists|i: int|
                0 <= i < rules.len() && (#[trigger] rules[i]).enabled && pattern_compiles(rules[i].kind, rules[i].pattern@)
                    && compiled_patterns(rules)[j].0 == rules[i].kind && compiled_patterns(rules)[j].1 =~= rules[i].pattern@,
        compiled_patterns(rules).len() <= rules.len(),
    decreases rules.len(),
{
    if rules.len() > 0 {
        let front = rules.drop_last();
        let last = rules.len() - 1;
        lemma_compile_keeps_enabled_compiling_rules(front);
        let prev = compiled_patterns(front);
        let cur = compiled_patterns(rules);
        assert forall|i: int|
            0 <= i < rules.len() && (#[trigger] rules[i]).enabled && pattern_compiles(rules[i].kind, rules[i].pattern@)
                implies cur.contains((rules[i].kind, rules[i].pattern@)) by {
            if i < last {
                assert(front[i] == rules[i]);
                let j = choose|j: int| 0 <= j < prev.len() && prev[j] == (front[i].kind, front[i].pattern@);
                assert(cur[j] == prev[j]);
            } else {
                assert(cur[prev.len() as int] == (rules[i].kind, rules[i].pattern@));
            }
        }
        assert forall|j: int| #![trigger cur[j]] 0 <= j < cur.len() implies exists|i: int|
            0 <= i < rules.len() && (#[trigger] rules[i]).enabled && pattern_compiles(rules[i].kind, rules[i].pattern@)
                && cur[j].0 == rules[i].kind && cur[j].1 =~= rules[i].pattern@ by {
            if j < prev.len() {
                assert(compiled_patterns(front)[j] == prev[j]);
                let i = choose|i: int|
                    0 <= i < front.len() && (#[trigger] front[i]).enabled && pattern_compiles(front[i].kind, front[i].pattern@)
                        && prev[j].0 == front[i].kind && prev[j].1 =~= front[i].pattern@;
                assert(rules[i] == front[i]);
                assert(cur[j] == prev[j]);
            } else {
                assert(rules[last] == rules.last());
            }
        }
    }
}

/// A process matches the compiled rules exactly when some enabled rule whose
/// pattern compiles matches its image path or its name.
pub proof fn lemma_compiled_rules_match_iff_some_rule_matches(rules: Seq<Rule>, path: Seq<char>, name: Seq<char>)
    ensures
        any_pattern_matches(compiled_patterns(rules), path, name) <==> exists|i: int|
            0 <= i < rules.len() && (#[trigger] rules[i]).enabled && pattern_compiles(rules[i].kind, rules[i].pattern@)
                && (pattern_matches(rules[i].kind, rules[i].pattern@, path)
                || pattern_matches(rules[i].kind, rules[i].pattern@, name)),
{
    lemma_compile_keeps_enabled_compiling_rules(rules);
    let cur = compiled_patterns(rules);
    if any_pattern_matches(cur, path, name) {
        let j = choose|j: int|
            0 <= j < cur.len() && (pattern_matches(cur[j].0, cur[j].1, path) || pattern_matches(cur[j].0, cur[j].1, name));
        let i = choose|i: int|
            0 <= i < rules.len() && (#[trigger] rules[i]).enabled && pattern_compiles(rules[i].kind, rules[i].pattern@)
                && cur[j].0 == rules[i].kind && cur[j].1 =~= rules[i].pattern@;
        assert(rules[i].enabled);
    }
    if exists|i: int|
        0 <= i < rules.len() && (#[trigger] rules[i]).enabled && pattern_compiles(rules[i].kind, rules[i].pattern@)
            && (pattern_matches(rules[i].kind, rules[i].pattern@, path)
            || pattern_matches(rules[i].kind, rules[i].pattern@, name)) {
        let i = choose|i: int|
            0 <= i < rules.len() && (#[trigger] rules[i]).enabled && pattern_compiles(rules[i].kind, rules[i].pattern@)
                && (pattern_matches(rules[i].kind, rules[i].pattern@, path)
                || pattern_matches(rules[i].kind, rules[i].pattern@, name));
        assert(cur.contains((rules[i].kind, rules[i].pattern@)));
        let j = choose|j: int| 0 <= j < cur.len() && cur[j] == (rules[i].kind, rules[i].pattern@);
        assert(pattern_matches(cur[j].0, cur[j].1, path) || pattern_matches(cur[j].0, cur[j].1, name));
    }
}

} // verus!
