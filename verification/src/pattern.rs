use vstd::prelude::*;
use crate::rules::{Config, Rules};

verus! {

/// Whether `glob::Pattern::new` accepts `p` as a well-formed glob pattern.
pub uninterp spec fn pattern_ok(p: Seq<char>) -> bool;

/// The verdict of matching the glob pattern `p` against `path`, with
/// case-insensitive matching and with separators and leading dots given no
/// special treatment.
pub uninterp spec fn glob_match(p: Seq<char>, path: Seq<char>) -> bool;

/// Relies on glob::Pattern::new: whether `p` is a well-formed glob pattern;
/// the verdict depends on the pattern text alone.
#[verifier::external_body]
fn pattern_is_valid(p: &str) -> (r: bool)
    ensures
        r == pattern_ok(p@),
{
    glob::Pattern::new(p).is_ok()
}

/// Relies on glob::Pattern::new and glob::Pattern::matches_with: whether the
/// compiled pattern matches `path`, case-insensitively, with
/// `require_literal_separator` and `require_literal_leading_dot` off; the
/// verdict depends on the pattern and path text alone.
#[verifier::external_body]
fn glob_matches(p: &str, path: &str) -> (r: bool)
    requires
        pattern_ok(p@),
    ensures
        r == glob_match(p@, path@),
{
    let options = glob::MatchOptions {
        case_sensitive: false,
        require_literal_separator: false,
        require_literal_leading_dot: false,
    };
    glob::Pattern::new(p).unwrap().matches_with(path, options)
}

/// The rules whose pattern is a well-formed glob, in declaration order:
/// compiling a rule set silently drops the rules that do not compile, so
/// that one bad pattern never disables the others.
pub open spec fn compiled_of(rules: Rules) -> Rules {
    rules.filter(|r: (Seq<char>, Seq<char>)| pattern_ok(r.0))
}

/// The destination of the first rule whose pattern matches `path`, where
/// every pattern in `rules` is assumed well-formed.
pub open spec fn spec_best_match(rules: Rules, path: Seq<char>) -> Option<Seq<char>>
    decreases rules.len(),
{
    if rules.len() == 0 {
        None
    } else if glob_match(rules[0].0, path) {
        Some(rules[0].1)
    } else {
        spec_best_match(rules.drop_first(), path)
    }
}

/// The destination `path` is routed to by a raw rule set: the destination of
/// the earliest rule whose pattern is well-formed and matches `path`, or
/// `None` when no such rule exists and the file is left in place.
pub open spec fn spec_route(rules: Rules, path: Seq<char>) -> Option<Seq<char>>
    decreases rules.len(),
{
    if rules.len() == 0 {
        None
    } else if pattern_ok(rules[0].0) && glob_match(rules[0].0, path) {
        Some(rules[0].1)
    } else {
        spec_route(rules.drop_first(), path)
    }
}

proof fn lemma_compiled_push(s: Rules, x: (Seq<char>, Seq<char>))
    ensures
        compiled_of(s.push(x)) == if pattern_ok(x.0) {
            compiled_of(s).push(x)
        } else {
            compiled_of(s)
        },
    decreases s.len(),
{
    reveal(Seq::filter);
    assert(s.push(x).drop_last() =~= s);
    assert(s.push(x).last() == x);
}

/// Routing through the compiled rules agrees with routing through the raw
/// rules: dropping the rules that do not compile never changes where a file
/// goes.
pub proof fn lemma_route_via_compiled(rules: Rules, path: Seq<char>)
    ensures
        spec_best_match(compiled_of(rules), path) == spec_route(rules, path),
    decreases rules.len(),
{
    reveal(Seq::filter);
    if rules.len() == 0 {
        assert(compiled_of(rules).len() == 0);
    } else {
        let first = rules[0];
        let rest = rules.drop_first();
        lemma_route_via_compiled(rest, path);
        assert(rules =~= rest.insert(0, first));
        lemma_compiled_insert_first(rest, first);
        if pattern_ok(first.0) {
            assert(compiled_of(rules) =~= compiled_of(rest).insert(0, first));
            let c = compiled_of(rules);
            assert(c[0] == first);
            assert(c.drop_first() =~= compiled_of(rest));
        } else {
            assert(compiled_of(rules) =~= compiled_of(rest));
        }
    }
}

proof fn lemma_compiled_insert_first(s: Rules, x: (Seq<char>, Seq<char>))
    ensures
        compiled_of(s.insert(0, x)) == if pattern_ok(x.0) {
            compiled_of(s).insert(0, x)
        } else {
            compiled_of(s)
        },
    decreases s.len(),
{
    reveal(Seq::filter);
    if s.len() == 0 {
        assert(s.insert(0, x) =~= Seq::<(Seq<char>, Seq<char>)>::empty().push(x));
        assert(s.insert(0, x).drop_last() =~= s);
        if pattern_ok(x.0) {
            assert(compiled_of(s).insert(0, x) =~= compiled_of(s).push(x));
        }
    } else {
        let prefix = s.drop_last();
        let y = s.last();
        lemma_compiled_insert_first(prefix, x);
        assert(s.insert(0, x).drop_last() =~= prefix.insert(0, x));
        assert(s.insert(0, x).last() == y);
        assert(s =~= prefix.push(y));
        lemma_compiled_push(prefix, y);
        if pattern_ok(x.0) {
            if pattern_ok(y.0) {
                assert(compiled_of(s.insert(0, x)) =~= compiled_of(prefix).insert(0, x).push(y));
                assert(compiled_of(s).insert(0, x) =~= compiled_of(prefix).push(y).insert(0, x));
                assert(compiled_of(prefix).insert(0, x).push(y) =~= compiled_of(prefix).push(
                    y,
                ).insert(0, x));
            } else {
                assert(compiled_of(s.insert(0, x)) =~= compiled_of(prefix).insert(0, x));
                assert(compiled_of(s).insert(0, x) =~= compiled_of(prefix).insert(0, x));
            }
        } else {
            if pattern_ok(y.0) {
                assert(compiled_of(s.insert(0, x)) =~= compiled_of(prefix).push(y));
            } else {
                assert(compiled_of(s.insert(0, x)) =~= compiled_of(prefix));
            }
        }
    }
}

/// A compiled rule set: the rules of a `Config` whose glob patterns are
/// well-formed, ready to be matched against paths. Construction only ever
/// keeps well-formed patterns, so matching never fails to compile.
pub struct CompiledRules {
    rules: Vec<(String, String)>,
}

impl View for CompiledRules {
    type V = Rules;

    closed spec fn view(&self) -> Rules {
        self.rules.deep_view()
    }
}

impl CompiledRules {
    #[verifier::type_invariant]
    spec fn wf(self) -> bool {
        forall|i: int| 0 <= i < self@.len() ==> pattern_ok(#[trigger] self@[i].0)
    }

    /// Compiles a rule set: keeps exactly the rules whose pattern is a
    /// well-formed glob, in declaration order.
    pub fn compile(config: &Config) -> (r: CompiledRules)
        ensures
            r@ == compiled_of(config@),
    {
        let mut rules: Vec<(String, String)> = Vec::new();
        let n = config.patterns.len();
        for i in 0..n
            invariant
                n == config.patterns.len(),
                rules.deep_view() =~= compiled_of(config@.take(i as int)),
                forall|j: int|
                    0 <= j < rules.deep_view().len() ==> pattern_ok(
                        #[trigger] rules.deep_view()[j].0,
                    ),
        {
            let ghost prefix = config@.take(i as int);
            let pattern = config.patterns[i].0.clone();
            let destination = config.patterns[i].1.clone();
            proof {
                assert((pattern@, destination@) == config@[i as int]);
                assert(config@.take(i + 1) =~= prefix.push(config@[i as int]));
                lemma_compiled_push(prefix, config@[i as int]);
            }
            if pattern_is_valid(pattern.as_str()) {
                let ghost before = rules.deep_view();
                rules.push((pattern, destination));
                proof {
                    assert(rules.deep_view() =~= before.push((pattern@, destination@)));
                }
            }
        }
        proof {
            assert(config@.take(n as int) =~= config@);
        }
        CompiledRules { rules }
    }

    /// The destination directory of each compiled rule, in rule order.
    pub fn destinations(&self) -> (r: Vec<String>)
        ensures
            r.deep_view().len() == self@.len(),
            forall|i: int| 0 <= i < self@.len() ==> #[trigger] r.deep_view()[i] == self@[i].1,
    {
        let mut out: Vec<String> = Vec::new();
        let n = self.rules.len();
        for i in 0..n
            invariant
                n == self.rules@.len(),
                out.deep_view().len() == i,
                forall|j: int| 0 <= j < i ==> #[trigger] out.deep_view()[j] == self@[j].1,
        {
            let d = self.rules[i].1.clone();
            proof {
                assert(d@ == self@[i as int].1);
            }
            let ghost before = out.deep_view();
            out.push(d);
            proof {
                assert(out.deep_view() =~= before.push(d@));
            }
        }
        out
    }

    /// The destination of the first rule (in declaration order) whose
    /// pattern matches `path`, or `None` when no rule matches.
    pub fn best_match(&self, path: &str) -> (r: Option<String>)
        ensures
            r.deep_view() == spec_best_match(self@, path@),
    {
        proof {
            use_type_invariant(&*self);
            assert(self@.skip(0) =~= self@);
        }
        let n = self.rules.len();
        for i in 0..n
            invariant
                n == self.rules.len(),
                self.wf(),
                spec_best_match(self@, path@) == spec_best_match(self@.skip(i as int), path@),
                forall|j: int|
                    0 <= j < i ==> !glob_match(#[trigger] self@[j].0, path@),
        {
            proof {
                assert(self@.skip(i as int)[0] == self@[i as int]);
            }
            if glob_matches(self.rules[i].0.as_str(), path) {
                let d = self.rules[i].1.clone();
                proof {
                    assert(spec_best_match(self@.skip(i as int), path@) == Some(
                        self@[i as int].1,
                    ));
                }
                return Some(d);
            }
            proof {
                assert(self@.skip(i as int).drop_first() =~= self@.skip(i + 1));
            }
        }
        proof {
            assert(self@.skip(n as int).len() == 0);
        }
        None
    }
}

/// First match wins: when the rule at position `i` is the earliest rule
/// whose pattern is well-formed and matches `path`, the rule set routes
/// `path` to that rule's destination, whatever the later rules say.
pub proof fn lemma_first_match_wins(rules: Rules, path: Seq<char>, i: int)
    requires
        0 <= i < rules.len(),
        pattern_ok(rules[i].0),
        glob_match(rules[i].0, path),
        forall|j: int|
            0 <= j < i ==> !(pattern_ok(#[trigger] rules[j].0) && glob_match(rules[j].0, path)),
    ensures
        spec_route(rules, path) == Some(rules[i].1),
    decreases i,
{
    if i == 0 {
    } else {
        assert(!(pattern_ok(rules[0].0) && glob_match(rules[0].0, path)));
        let rest = rules.drop_first();
        assert(rest[i - 1] == rules[i]);
        assert(forall|j: int|
            0 <= j < i - 1 ==> !(pattern_ok(#[trigger] rest[j].0) && glob_match(
                rest[j].0,
                path,
            )));
        lemma_first_match_wins(rest, path, i - 1);
    }
}

/// When no well-formed rule matches `path`, the rule set routes it nowhere:
/// the file is left in place.
pub proof fn lemma_no_match_no_route(rules: Rules, path: Seq<char>)
    requires
        forall|j: int|
            0 <= j < rules.len() ==> !(pattern_ok(#[trigger] rules[j].0) && glob_match(
                rules[j].0,
                path,
            )),
    ensures
        spec_route(rules, path) is None,
    decreases rules.len(),
{
    if rules.len() == 0 {
    } else {
        let rest = rules.drop_first();
        assert(forall|j: int| 0 <= j < rest.len() ==> rest[j] == rules[j + 1]);
        lemma_no_match_no_route(rest, path);
    }
}

} // verus!
