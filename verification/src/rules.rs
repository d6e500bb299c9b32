use vstd::prelude::*;

verus! {

/// The mathematical model of a rule set: an ordered sequence of
/// (glob pattern, destination directory) pairs, each as a sequence
/// of characters. Order is significant: the first matching rule wins.
pub type Rules = Seq<(Seq<char>, Seq<char>)>;

/// An ordered rule set. Each entry pairs a glob pattern with a destination
/// directory; the earliest matching entry decides where a file goes.
/// A rule set is an immutable snapshot: a configuration reload builds a new
/// `Config` and swaps it in wholesale.
pub struct Config {
    pub patterns: Vec<(String, String)>,
}

impl View for Config {
    type V = Rules;

    open spec fn view(&self) -> Rules {
        self.patterns.deep_view()
    }
}

impl Config {
    /// The empty rule set: no pattern, so no file ever matches.
    pub fn empty() -> (r: Config)
        ensures
            r@ =~= Seq::<(Seq<char>, Seq<char>)>::empty(),
    {
        Config { patterns: Vec::new() }
    }

    /// An exact copy: the duplicate holds the same rules in the same order.
    pub fn duplicate(&self) -> (r: Config)
        ensures
            r@ == self@,
    {
        let mut patterns: Vec<(String, String)> = Vec::new();
        let n = self.patterns.len();
        for i in 0..n
            invariant
                n == self.patterns.len(),
                patterns@.len() == i,
                forall|j: int|
                    0 <= j < i ==> #[trigger] patterns.deep_view()[j]
                        == self.patterns.deep_view()[j],
        {
            let pattern = self.patterns[i].0.clone();
            let destination = self.patterns[i].1.clone();
            proof {
                assert((pattern@, destination@) == self.patterns.deep_view()[i as int]);
            }
            let ghost prev = patterns.deep_view();
            patterns.push((pattern, destination));
            proof {
                assert(forall|j: int|
                    0 <= j < i ==> #[trigger] patterns.deep_view()[j] == prev[j]);
                assert(patterns.deep_view()[i as int] == (pattern@, destination@));
            }
        }
        proof {
            assert(patterns.deep_view() =~= self.patterns.deep_view());
        }
        Config { patterns }
    }
}

/// The shape of the generated template configuration: one illustrative
/// example rule and an empty active rule list.
pub struct ExampleConfig {
    pub example: Vec<(String, String)>,
    pub patterns: Vec<(String, String)>,
}

impl Default for ExampleConfig {
    /// The template written when no configuration file exists: a single
    /// sample rule under `example` and no active rules.
    fn default() -> (r: Self)
        ensures
            r.example.deep_view() =~= seq![("file*.pdf"@, "C:\\Path\\To\\Folder\\"@)],
            r.patterns.deep_view() =~= Seq::<(Seq<char>, Seq<char>)>::empty(),
    {
        let mut example: Vec<(String, String)> = Vec::new();
        example.push((String::from_str("file*.pdf"), String::from_str("C:\\Path\\To\\Folder\\")));
        ExampleConfig { example, patterns: Vec::new() }
    }
}

} // verus!
