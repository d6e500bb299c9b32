use vstd::prelude::*;
use crate::paths::{file_name_of, join_path, spec_file_name, spec_join};
use crate::pattern::{
    compiled_of, lemma_route_via_compiled, spec_best_match, spec_route, CompiledRules,
};
use crate::rules::{Config, Rules};

verus! {

/// One coalesced filesystem change notice out of a debounced batch, as the
/// watcher hands it over. The surrounding process fills in what only the
/// filesystem can tell: whether the path currently exists as a regular
/// file.
pub struct ChangeEvent {
    /// The changed path, in full.
    pub path: String,
    /// Whether the event is a plain change notice (a file created,
    /// modified or renamed into place), as opposed to an ongoing-write
    /// notice.
    pub is_any: bool,
    /// Whether a regular file currently exists at `path`.
    pub is_existing_file: bool,
}

/// Whether a batch announces a configuration change: some event's path is
/// the configuration file's path.
pub open spec fn spec_config_changed(batch: Seq<ChangeEvent>, config_path: Seq<char>) -> bool {
    exists|i: int| 0 <= i < batch.len() && batch[i].path@ == config_path
}

/// Whether an event names a candidate file: a plain change notice whose
/// path currently is a regular file.
pub open spec fn spec_is_candidate(e: ChangeEvent) -> bool {
    e.is_any && e.is_existing_file
}

/// The moves a batch earns under a compiled rule set: for each candidate
/// event, in batch order, whose path the rules route somewhere, the pair of
/// the source path and the destination path (the destination directory
/// joined with the file's name). Paths no rule matches are left in place:
/// they earn no move.
pub open spec fn spec_batch_plan(rules: Rules, batch: Seq<ChangeEvent>) -> Seq<
    (Seq<char>, Seq<char>),
>
    decreases batch.len(),
{
    if batch.len() == 0 {
        Seq::empty()
    } else {
        let init = spec_batch_plan(rules, batch.drop_last());
        let e = batch.last();
        if spec_is_candidate(e) {
            match spec_best_match(rules, e.path@) {
                Some(dest) => init.push((e.path@, spec_join(dest, spec_file_name(e.path@)))),
                None => init,
            }
        } else {
            init
        }
    }
}

/// Whether a batch announces a configuration change: true exactly when
/// some event's path equals the configuration file's path.
pub fn config_changed(batch: &Vec<ChangeEvent>, config_path: &str) -> (r: bool)
    ensures
        r == spec_config_changed(batch@, config_path@),
{
    let cfg = String::from_str(config_path);
    let n = batch.len();
    for i in 0..n
        invariant
            n == batch@.len(),
            cfg@ == config_path@,
            forall|j: int| 0 <= j < i ==> batch@[j].path@ != config_path@,
    {
        if batch[i].path == cfg {
            return true;
        }
    }
    false
}

/// Plans the moves a batch earns under a compiled rule set: one (source,
/// destination) pair per candidate event that some rule matches, in batch
/// order.
pub fn plan_batch_moves(compiled: &CompiledRules, batch: &Vec<ChangeEvent>) -> (r: Vec<
    (String, String),
>)
    ensures
        r.deep_view() == spec_batch_plan(compiled@, batch@),
{
    let mut out: Vec<(String, String)> = Vec::new();
    let n = batch.len();
    for i in 0..n
        invariant
            n == batch@.len(),
            out.deep_view() =~= spec_batch_plan(compiled@, batch@.take(i as int)),
    {
        proof {
            assert(batch@.take(i + 1).drop_last() =~= batch@.take(i as int));
            assert(batch@.take(i + 1).last() == batch@[i as int]);
        }
        if batch[i].is_any && batch[i].is_existing_file {
            match compiled.best_match(batch[i].path.as_str()) {
                Some(dest) => {
                    let name = file_name_of(batch[i].path.as_str());
                    let to = join_path(dest.as_str(), name.as_str());
                    let from = batch[i].path.clone();
                    let ghost before = out.deep_view();
                    out.push((from, to));
                    proof {
                        assert(out.deep_view() =~= before.push((from@, to@)));
                    }
                },
                None => {},
            }
        }
    }
    proof {
        assert(batch@.take(n as int) =~= batch@);
    }
    out
}

/// What the orchestrator decides for one debounced batch.
pub enum BatchDecision {
    /// Some event touched the configuration file: reload the rules and
    /// rescan the watched directory in full.
    ReloadAndRescan,
    /// An ordinary batch: perform exactly these moves, in order, under the
    /// rule set that was authoritative when the batch was classified.
    Moves(Vec<(String, String)>),
}

/// Classifies one debounced batch and plans its work, as the watch loop's
/// single decision point:
/// - a batch touching the configuration file calls for a reload followed
///   by a full rescan;
/// - any other batch earns the moves its candidate events match under the
///   given rule set, bad patterns dropped.
pub fn decide_batch(config: &Config, batch: &Vec<ChangeEvent>, config_path: &str) -> (r:
    BatchDecision)
    ensures
        spec_config_changed(batch@, config_path@) ==> r is ReloadAndRescan,
        !spec_config_changed(batch@, config_path@) ==> (r matches BatchDecision::Moves(m)
            && m.deep_view() == spec_batch_plan(compiled_of(config@), batch@)),
{
    if config_changed(batch, config_path) {
        BatchDecision::ReloadAndRescan
    } else {
        let compiled = CompiledRules::compile(config);
        BatchDecision::Moves(plan_batch_moves(&compiled, batch))
    }
}

/// The destination directories of a compiled rule set, in rule order: a
/// rescan creates each of them, idempotently, before any matching is
/// attempted, whether or not any file matches.
pub open spec fn spec_dest_dirs(rules: Rules) -> Seq<Seq<char>> {
    rules.map_values(|r: (Seq<char>, Seq<char>)| r.1)
}

/// The moves a directory listing earns under a compiled rule set: for each
/// listed path, in listing order, that the rules route somewhere, the pair
/// of the path and its destination.
pub open spec fn spec_listing_plan(rules: Rules, listing: Seq<Seq<char>>) -> Seq<
    (Seq<char>, Seq<char>),
>
    decreases listing.len(),
{
    if listing.len() == 0 {
        Seq::empty()
    } else {
        let init = spec_listing_plan(rules, listing.drop_last());
        let p = listing.last();
        match spec_best_match(rules, p) {
            Some(dest) => init.push((p, spec_join(dest, spec_file_name(p)))),
            None => init,
        }
    }
}

/// A full rescan, planned: the directories to create (every rule's
/// destination, even when no file matches it) and the moves the listing
/// earns, in order.
pub struct RescanPlan {
    pub dirs: Vec<String>,
    pub moves: Vec<(String, String)>,
}

/// Plans a full rescan of the watched directory — the startup behavior,
/// repeated after every configuration reload: every destination directory
/// of the compiled rules is to be created first, idempotently, and each
/// listed file goes where the first matching rule sends it.
pub fn plan_rescan(compiled: &CompiledRules, listing: &Vec<String>) -> (r: RescanPlan)
    ensures
        r.dirs.deep_view() == spec_dest_dirs(compiled@),
        r.moves.deep_view() == spec_listing_plan(compiled@, listing.deep_view()),
{
    let dirs = compiled.destinations();
    proof {
        assert(dirs.deep_view() =~= spec_dest_dirs(compiled@));
    }
    let mut moves: Vec<(String, String)> = Vec::new();
    let m = listing.len();
    for i in 0..m
        invariant
            m == listing@.len(),
            moves.deep_view() =~= spec_listing_plan(compiled@, listing.deep_view().take(i as int)),
    {
        proof {
            assert(listing.deep_view().take(i + 1).drop_last() =~= listing.deep_view().take(
                i as int,
            ));
            assert(listing.deep_view().take(i + 1).last() == listing.deep_view()[i as int]);
        }
        match compiled.best_match(listing[i].as_str()) {
            Some(dest) => {
                let name = file_name_of(listing[i].as_str());
                let to = join_path(dest.as_str(), name.as_str());
                let from = listing[i].clone();
                let ghost before = moves.deep_view();
                moves.push((from, to));
                proof {
                    assert(moves.deep_view() =~= before.push((from@, to@)));
                }
            },
            None => {},
        }
    }
    proof {
        assert(listing.deep_view().take(m as int) =~= listing.deep_view());
    }
    RescanPlan { dirs, moves }
}

/// Whether one planned move is exactly what some candidate event of the
/// batch earns under the raw rules: its source is the event's path, the
/// rules route that path somewhere, and its destination is the routed
/// directory joined with the file's name.
pub open spec fn spec_move_is_earned(
    rules: Rules,
    batch: Seq<ChangeEvent>,
    mv: (Seq<char>, Seq<char>),
) -> bool {
    exists|i: int|
        0 <= i < batch.len() && spec_is_candidate(batch[i]) && spec_route(rules, batch[i].path@)
            is Some && mv == (
            batch[i].path@,
            spec_join(
                spec_route(rules, batch[i].path@)->Some_0,
                spec_file_name(batch[i].path@),
            ),
        )
}

/// Plan soundness: every move a batch plan holds is earned — its source is
/// a candidate event's path, and its destination is where the raw rules
/// route that path (bad patterns dropped), joined with the file's name.
/// Nothing is ever moved that no rule matched.
pub proof fn lemma_plan_follows_route(rules: Rules, batch: Seq<ChangeEvent>, j: int)
    requires
        0 <= j < spec_batch_plan(compiled_of(rules), batch).len(),
    ensures
        spec_move_is_earned(rules, batch, spec_batch_plan(compiled_of(rules), batch)[j]),
    decreases batch.len(),
{
    let compiled = compiled_of(rules);
    let plan = spec_batch_plan(compiled, batch);
    if batch.len() == 0 {
    } else {
        let init = spec_batch_plan(compiled, batch.drop_last());
        let e = batch.last();
        if j < init.len() {
            lemma_plan_follows_route(rules, batch.drop_last(), j);
            let prev = batch.drop_last();
            let i = choose|i: int|
                0 <= i < prev.len() && spec_is_candidate(prev[i]) && spec_route(rules, prev[i].path@)
                    is Some && init[j] == (
                    prev[i].path@,
                    spec_join(
                        spec_route(rules, prev[i].path@)->Some_0,
                        spec_file_name(prev[i].path@),
                    ),
                );
            assert(batch[i] == prev[i]);
            assert(plan[j] == init[j]);
        } else {
            assert(spec_is_candidate(e) && spec_best_match(compiled, e.path@) is Some);
            lemma_route_via_compiled(rules, e.path@);
            let i = batch.len() - 1;
            assert(batch[i] == e);
            assert(plan[j] == (
                e.path@,
                spec_join(spec_route(rules, e.path@)->Some_0, spec_file_name(e.path@)),
            ));
        }
    }
}

/// Plan completeness: every candidate event whose path the rules route
/// somewhere earns a move in the batch plan, with that path as its source.
/// A matching file is never passed over.
pub proof fn lemma_plan_covers_candidates(rules: Rules, batch: Seq<ChangeEvent>, i: int)
    requires
        0 <= i < batch.len(),
        spec_is_candidate(batch[i]),
        spec_route(rules, batch[i].path@) is Some,
    ensures
        exists|j: int|
            0 <= j < spec_batch_plan(compiled_of(rules), batch).len() && (
            #[trigger] spec_batch_plan(compiled_of(rules), batch)[j]) == (
                batch[i].path@,
                spec_join(
                    spec_route(rules, batch[i].path@)->Some_0,
                    spec_file_name(batch[i].path@),
                ),
            ),
    decreases batch.len(),
{
    let compiled = compiled_of(rules);
    let plan = spec_batch_plan(compiled, batch);
    let e = batch.last();
    let init = spec_batch_plan(compiled, batch.drop_last());
    lemma_route_via_compiled(rules, e.path@);
    if i == batch.len() - 1 {
        assert(spec_best_match(compiled, e.path@) is Some);
        assert(plan[init.len() as int] == (
            e.path@,
            spec_join(spec_route(rules, e.path@)->Some_0, spec_file_name(e.path@)),
        ));
    } else {
        lemma_plan_covers_candidates(rules, batch.drop_last(), i);
        let prev = batch.drop_last();
        let j = choose|j: int|
            0 <= j < init.len() && #[trigger] init[j] == (
                prev[i].path@,
                spec_join(
                    spec_route(rules, prev[i].path@)->Some_0,
                    spec_file_name(prev[i].path@),
                ),
            );
        assert(batch[i] == prev[i]);
        assert(plan[j] == init[j]);
    }
}

/// At most one move per file per cycle: when a batch's candidate events
/// name distinct paths (as a debounced batch does, events being coalesced
/// per path), the plan holds at most one move for each path.
pub proof fn lemma_one_move_per_file(rules: Rules, batch: Seq<ChangeEvent>)
    requires
        forall|i: int, j: int|
            0 <= i < j < batch.len() && spec_is_candidate(#[trigger] batch[i])
                && spec_is_candidate(#[trigger] batch[j]) ==> batch[i].path@ != batch[j].path@,
    ensures
        forall|p: int, q: int|
            0 <= p < q < spec_batch_plan(compiled_of(rules), batch).len() ==> (
            #[trigger] spec_batch_plan(compiled_of(rules), batch)[p]).0 != (
            #[trigger] spec_batch_plan(compiled_of(rules), batch)[q]).0,
    decreases batch.len(),
{
    let compiled = compiled_of(rules);
    let plan = spec_batch_plan(compiled, batch);
    if batch.len() == 0 {
    } else {
        let prev = batch.drop_last();
        let e = batch.last();
        let init = spec_batch_plan(compiled, prev);
        assert(forall|i: int| 0 <= i < prev.len() ==> prev[i] == batch[i]);
        lemma_one_move_per_file(rules, prev);
        assert forall|p: int, q: int| 0 <= p < q < plan.len() implies (#[trigger] plan[p]).0 != (
        #[trigger] plan[q]).0 by {
            if q < init.len() {
                assert(plan[p] == init[p] && plan[q] == init[q]);
            } else {
                // the plan grew: its last entry is e's, and e is a candidate
                assert(spec_is_candidate(e) && spec_best_match(compiled, e.path@) is Some);
                assert(plan[q].0 == e.path@);
                assert(plan[p] == init[p]);
                lemma_plan_follows_route(rules, prev, p);
                let i = choose|i: int|
                    0 <= i < prev.len() && spec_is_candidate(prev[i]) && spec_route(
                        rules,
                        prev[i].path@,
                    ) is Some && init[p] == (
                        prev[i].path@,
                        spec_join(
                            spec_route(rules, prev[i].path@)->Some_0,
                            spec_file_name(prev[i].path@),
                        ),
                    );
                assert(spec_is_candidate(batch[i]) && spec_is_candidate(
                    batch[batch.len() - 1],
                ));
                assert(batch[i].path@ != e.path@);
            }
        }
    }
}

/// A file no rule matches is left in place: a path the rules route nowhere
/// appears as the source of no planned move, so the mover is never invoked
/// for it.
pub proof fn lemma_unmatched_earns_no_move(rules: Rules, batch: Seq<ChangeEvent>, p: Seq<char>)
    requires
        spec_best_match(rules, p) is None,
    ensures
        forall|j: int|
            0 <= j < spec_batch_plan(rules, batch).len() ==> (#[trigger] spec_batch_plan(
                rules,
                batch,
            )[j]).0 != p,
    decreases batch.len(),
{
    if batch.len() == 0 {
    } else {
        lemma_unmatched_earns_no_move(rules, batch.drop_last(), p);
        let e = batch.last();
        let plan = spec_batch_plan(rules, batch);
        let init = spec_batch_plan(rules, batch.drop_last());
        assert forall|j: int| 0 <= j < plan.len() implies (#[trigger] plan[j]).0 != p by {
            if spec_is_candidate(e) && spec_best_match(rules, e.path@) is Some {
                if j < init.len() {
                    assert(plan[j] == init[j]);
                } else {
                    assert(plan[j].0 == e.path@);
                    assert(e.path@ != p);
                }
            } else {
                assert(plan == init);
            }
        }
    }
}

/// Rescan soundness: every move a rescan plan holds takes a listed path
/// where the raw rules route it, joined with the file's name. A rescan
/// never moves a file no rule matched.
pub proof fn lemma_rescan_follows_route(rules: Rules, listing: Seq<Seq<char>>, j: int)
    requires
        0 <= j < spec_listing_plan(compiled_of(rules), listing).len(),
    ensures
        exists|i: int|
            0 <= i < listing.len() && spec_route(rules, #[trigger] listing[i]) is Some
                && spec_listing_plan(compiled_of(rules), listing)[j] == (
                listing[i],
                spec_join(spec_route(rules, listing[i])->Some_0, spec_file_name(listing[i])),
            ),
    decreases listing.len(),
{
    let compiled = compiled_of(rules);
    let plan = spec_listing_plan(compiled, listing);
    if listing.len() == 0 {
    } else {
        let prev = listing.drop_last();
        let p = listing.last();
        let init = spec_listing_plan(compiled, prev);
        lemma_route_via_compiled(rules, p);
        if j < init.len() {
            lemma_rescan_follows_route(rules, prev, j);
            let i = choose|i: int|
                0 <= i < prev.len() && spec_route(rules, #[trigger] prev[i]) is Some && init[j]
                    == (
                    prev[i],
                    spec_join(spec_route(rules, prev[i])->Some_0, spec_file_name(prev[i])),
                );
            assert(listing[i] == prev[i]);
            assert(plan[j] == init[j]);
        } else {
            let i = listing.len() - 1;
            assert(listing[i] == p);
            assert(plan[j] == (
                p,
                spec_join(spec_route(rules, p)->Some_0, spec_file_name(p)),
            ));
        }
    }
}

/// Rescan completeness: every listed path the raw rules route somewhere
/// earns a move in the rescan plan. A matching file present at startup is
/// never passed over.
pub proof fn lemma_rescan_covers_listing(rules: Rules, listing: Seq<Seq<char>>, i: int)
    requires
        0 <= i < listing.len(),
        spec_route(rules, listing[i]) is Some,
    ensures
        exists|j: int|
            0 <= j < spec_listing_plan(compiled_of(rules), listing).len() && (
            #[trigger] spec_listing_plan(compiled_of(rules), listing)[j]) == (
                listing[i],
                spec_join(spec_route(rules, listing[i])->Some_0, spec_file_name(listing[i])),
            ),
    decreases listing.len(),
{
    let compiled = compiled_of(rules);
    let plan = spec_listing_plan(compiled, listing);
    let p = listing.last();
    let prev = listing.drop_last();
    let init = spec_listing_plan(compiled, prev);
    lemma_route_via_compiled(rules, p);
    if i == listing.len() - 1 {
        assert(spec_best_match(compiled, p) is Some);
        assert(plan[init.len() as int] == (
            p,
            spec_join(spec_route(rules, p)->Some_0, spec_file_name(p)),
        ));
    } else {
        lemma_rescan_covers_listing(rules, prev, i);
        let j = choose|j: int|
            0 <= j < init.len() && #[trigger] init[j] == (
                prev[i],
                spec_join(spec_route(rules, prev[i])->Some_0, spec_file_name(prev[i])),
            );
        assert(listing[i] == prev[i]);
        assert(plan[j] == init[j]);
    }
}

/// How many of a batch's outcomes report a completed move: what the
/// user-visible tally counts.
pub open spec fn spec_count_moved(outcomes: Seq<crate::mover::MoveOutcome>) -> nat {
    outcomes.filter(|o: crate::mover::MoveOutcome| o is Moved).len()
}

/// Counts the outcomes that report a completed move.
pub fn count_moved(outcomes: &Vec<crate::mover::MoveOutcome>) -> (r: usize)
    ensures
        r == spec_count_moved(outcomes@),
{
    let mut count: usize = 0;
    let n = outcomes.len();
    for i in 0..n
        invariant
            n == outcomes@.len(),
            count == spec_count_moved(outcomes@.take(i as int)),
            count <= i,
    {
        proof {
            assert(outcomes@.take(i + 1).drop_last() =~= outcomes@.take(i as int));
            assert(outcomes@.take(i + 1).last() == outcomes@[i as int]);
            reveal(Seq::filter);
        }
        match outcomes[i] {
            crate::mover::MoveOutcome::Moved => {
                count = count + 1;
            },
            _ => {},
        }
    }
    proof {
        assert(outcomes@.take(n as int) =~= outcomes@);
    }
    count
}

} // verus!
