use vstd::prelude::*;
use crate::rules::{Config, Rules};

verus! {

/// What `toml::from_str` makes of a configuration document: the `patterns`
/// field as an ordered sequence of (pattern, destination) pairs, or `None`
/// when the text does not parse as such a document or has no `patterns`
/// field.
pub uninterp spec fn toml_rules_of(s: Seq<char>) -> Option<Rules>;

/// Relies on toml::from_str: parses the configuration document and hands
/// back its `patterns` field; the result depends on the text alone.
#[verifier::external_body]
fn parse_rules_text(s: &str) -> (r: Option<Vec<(String, String)>>)
    ensures
        r.deep_view() == toml_rules_of(s@),
{
    let doc: std::collections::HashMap<String, Vec<(String, String)>> = match toml::from_str(s) {
        Ok(d) => d,
        Err(_) => {
            return None;
        },
    };
    doc.get("patterns").cloned()
}

/// Parses a configuration document's text into a rule set: the `patterns`
/// field, in declaration order, or `None` when the text is not a valid
/// configuration document.
pub fn parse_config(text: &str) -> (r: Option<Config>)
    ensures
        match r {
            Some(c) => toml_rules_of(text@) == Some(c@),
            None => toml_rules_of(text@) is None,
        },
{
    match parse_rules_text(text) {
        Some(patterns) => Some(Config { patterns }),
        None => None,
    }
}

/// The text of the template configuration file written when none exists or
/// the existing one does not parse: one illustrative `example` rule, and an
/// empty active `patterns` list.
pub open spec fn spec_default_config_text() -> Seq<char> {
    "example = [[\"file*.pdf\", \"C:\\\\Path\\\\To\\\\Folder\\\\\"]]\npatterns = []\n"@
}

/// The template configuration document.
pub fn default_config_text() -> (r: String)
    ensures
        r@ == spec_default_config_text(),
{
    String::from_str(
        "example = [[\"file*.pdf\", \"C:\\\\Path\\\\To\\\\Folder\\\\\"]]\npatterns = []\n",
    )
}

/// The configuration file's name inside the watched directory.
pub fn config_file_name() -> (r: String)
    ensures
        r@ == "janitor.toml"@,
{
    String::from_str("janitor.toml")
}

/// The name the unparsable configuration file is renamed to, preserving it
/// beside the freshly written template.
pub fn backup_file_name() -> (r: String)
    ensures
        r@ == "janitor-old.toml"@,
{
    String::from_str("janitor-old.toml")
}

/// The configuration file's full path: it lives inside the watched
/// directory itself, so that editing it is detected by the same watcher
/// that detects file arrivals.
pub fn get_config_path(watched_dir: &str) -> (r: String)
    ensures
        r@ == crate::paths::spec_join(watched_dir@, "janitor.toml"@),
{
    let name = config_file_name();
    crate::paths::join_path(watched_dir, name.as_str())
}

/// What reading the configuration file yielded, as the surrounding process
/// reports it.
pub enum ReadEvent {
    /// No file exists at the configuration path.
    Missing,
    /// A file exists but could not be read at all (permissions, I/O error).
    ReadFailed,
    /// The file was read in full; this is its text.
    Content(String),
}

/// One instruction a configuration load hands back to the surrounding
/// process, to be performed in the order given.
#[derive(Clone, Copy, PartialEq, Eq, Structural, Debug)]
pub enum LoadAction {
    /// Tell the user that no configuration file was found and that a
    /// default one is being written.
    NotifyNoConfig,
    /// Tell the user that the configuration file did not parse and that a
    /// default one is being written.
    NotifyInvalidConfig,
    /// Tell the user that the configuration file could not be read and
    /// that the previously active rules stay in force.
    NotifyReadFailed,
    /// Rename the unparsable configuration file aside, preserving it for
    /// inspection under the backup name.
    BackupAside,
    /// Write the template configuration document at the configuration
    /// path.
    WriteTemplate,
}

/// What becomes authoritative after a configuration load.
pub enum LoadOutcome {
    /// These rules replace the active rule set wholesale.
    Loaded(Config),
    /// The configuration could not be read: the previously active rules
    /// stay, and the watch loop goes on.
    KeepPrevious,
}

/// A configuration load, decided: the filesystem and notification steps the
/// surrounding process must take, in order, and the rules that come out.
pub struct LoadPlan {
    pub actions: Vec<LoadAction>,
    pub outcome: LoadOutcome,
}

/// Decides a configuration load from what the read of the configuration
/// file yielded:
/// - a missing file is self-healed: the template is written, the user told,
///   and the default (empty) rule set becomes active;
/// - text that parses yields its rules, with nothing else to do;
/// - text that does not parse is backed up aside, the template written, the
///   user told, and the default (empty) rule set becomes active;
/// - a file that cannot be read at all is fatal to this reload only: the
///   user is told and the previously active rules stay.
pub fn load_plan(ev: ReadEvent) -> (r: LoadPlan)
    ensures
        match ev {
            ReadEvent::Missing => r.actions@ =~= seq![
                LoadAction::NotifyNoConfig,
                LoadAction::WriteTemplate,
            ] && (r.outcome matches LoadOutcome::Loaded(c) && c@ =~= Seq::<(
                Seq<char>,
                Seq<char>,
            )>::empty()),
            ReadEvent::ReadFailed => r.actions@ =~= seq![LoadAction::NotifyReadFailed]
                && r.outcome is KeepPrevious,
            ReadEvent::Content(s) => match toml_rules_of(s@) {
                Some(rules) => r.actions@ =~= Seq::<LoadAction>::empty() && (
                r.outcome matches LoadOutcome::Loaded(c) && c@ == rules),
                None => r.actions@ =~= seq![
                    LoadAction::NotifyInvalidConfig,
                    LoadAction::BackupAside,
                    LoadAction::WriteTemplate,
                ] && (r.outcome matches LoadOutcome::Loaded(c) && c@ =~= Seq::<(
                    Seq<char>,
                    Seq<char>,
                )>::empty()),
            },
        },
{
    match ev {
        ReadEvent::Missing => {
            let mut actions: Vec<LoadAction> = Vec::new();
            actions.push(LoadAction::NotifyNoConfig);
            actions.push(LoadAction::WriteTemplate);
            LoadPlan { actions, outcome: LoadOutcome::Loaded(Config::empty()) }
        },
        ReadEvent::ReadFailed => {
            let mut actions: Vec<LoadAction> = Vec::new();
            actions.push(LoadAction::NotifyReadFailed);
            LoadPlan { actions, outcome: LoadOutcome::KeepPrevious }
        },
        ReadEvent::Content(s) => match parse_config(s.as_str()) {
            Some(c) => LoadPlan { actions: Vec::new(), outcome: LoadOutcome::Loaded(c) },
            None => {
                let mut actions: Vec<LoadAction> = Vec::new();
                actions.push(LoadAction::NotifyInvalidConfig);
                actions.push(LoadAction::BackupAside);
                actions.push(LoadAction::WriteTemplate);
                LoadPlan { actions, outcome: LoadOutcome::Loaded(Config::empty()) }
            },
        },
    }
}

/// Owns the rule set that is authoritative right now. Exactly one rule set
/// is authoritative at any instant; a reload builds a brand-new `Config`
/// and swaps it in wholesale through `replace`, never mutating the active
/// one in place. The surrounding process guards the store with a single
/// exclusive lock held only for the swap or the snapshot itself, never
/// during I/O.
pub struct ConfigStore {
    current: Config,
}

impl View for ConfigStore {
    type V = Rules;

    closed spec fn view(&self) -> Rules {
        self.current@
    }
}

impl ConfigStore {
    /// A store whose authoritative rules are `initial`'s.
    pub fn new(initial: Config) -> (r: ConfigStore)
        ensures
            r@ == initial@,
    {
        ConfigStore { current: initial }
    }

    /// The currently authoritative rule set, in full: a reader always
    /// observes a fully-formed rule set, never a partially updated one.
    pub fn snapshot(&self) -> (r: Config)
        ensures
            r@ == self@,
    {
        self.current.duplicate()
    }

    /// Swaps the authoritative rule set wholesale: afterwards the store
    /// holds exactly `new`'s rules, and nothing of the old ones.
    pub fn replace(&mut self, new: Config)
        ensures
            final(self)@ == new@,
    {
        self.current = new;
    }

    /// Applies what a configuration load decided: loaded rules replace the
    /// active set wholesale; a failed read keeps the previous rules active.
    pub fn apply(&mut self, outcome: LoadOutcome)
        ensures
            match outcome {
                LoadOutcome::Loaded(c) => final(self)@ == c@,
                LoadOutcome::KeepPrevious => final(self)@ == old(self)@,
            },
    {
        match outcome {
            LoadOutcome::Loaded(c) => self.replace(c),
            LoadOutcome::KeepPrevious => {},
        }
    }
}

/// Hot-reload isolation: the store's lock serializes a concurrent reader's
/// snapshot against a `replace`, so the reader sees the store either as it
/// stood before the swap or as it stands after. With `snapshot` returning
/// the authoritative rules in full and `replace` installing the new rules
/// in full, every snapshot equals one of the two whole rule sets — never a
/// mix of old and new entries.
pub proof fn lemma_snapshot_isolation(
    before: ConfigStore,
    after: ConfigStore,
    new_rules: Rules,
    observed: Rules,
)
    requires
        after@ == new_rules,
        observed == before@ || observed == after@,
    ensures
        observed == before@ || observed == new_rules,
{
}

} // verus!
