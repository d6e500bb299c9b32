use vstd::prelude::*;

verus! {

/// Why a relocation failed.
#[derive(Clone, Copy, PartialEq, Eq, Structural, Debug)]
pub enum MoveError {
    /// Neither the atomic rename nor the copy fallback succeeded; the source
    /// is untouched and the file will be retried on a later cycle.
    RenameAndCopyFailed,
    /// The copy succeeded but the source could not be removed afterwards:
    /// the file now exists at both paths. Duplication is preferable to
    /// silent loss, but the condition is surfaced rather than swallowed.
    CopiedButSourceRemains,
}

/// The per-file result of one relocation attempt.
#[derive(Clone, Copy, PartialEq, Eq, Structural, Debug)]
pub enum MoveOutcome {
    /// The file now lives at the destination and is gone from the source.
    Moved,
    /// The source was already gone when the attempt began (for example, a
    /// duplicate event for a file an earlier cycle moved): nothing to do,
    /// and no error.
    Skipped,
    /// The relocation failed; the reason says how far it got.
    Failed(MoveError),
}

/// The stations of one relocation, in the order the engine visits them:
/// check the source, try the atomic rename, fall back to copy, then remove
/// the source that was copied.
#[derive(Clone, Copy, PartialEq, Eq, Structural, Debug)]
pub enum MoveState {
    /// Check whether the source still exists.
    Probe,
    /// The source exists: attempt the atomic rename.
    Rename,
    /// The rename failed (for example, across devices): copy the source's
    /// bytes to the destination.
    Copy,
    /// The copy succeeded: remove the source.
    DeleteSource,
    /// The attempt is over, with this outcome.
    Done(MoveOutcome),
}

/// The filesystem operation the surrounding process must perform next, on
/// the relocation's source and destination paths.
#[derive(Clone, Copy, PartialEq, Eq, Structural, Debug)]
pub enum MoveAction {
    /// Report whether the source path is an existing file.
    StatSource,
    /// Rename the source to the destination in one operation.
    RenameToDest,
    /// Copy the source's bytes to the destination.
    CopyToDest,
    /// Remove the source.
    RemoveSource,
}

/// The state the relocation reaches when the pending operation of state `s`
/// reports `ok`.
pub open spec fn spec_step(s: MoveState, ok: bool) -> MoveState {
    match s {
        MoveState::Probe => if ok {
            MoveState::Rename
        } else {
            MoveState::Done(MoveOutcome::Skipped)
        },
        MoveState::Rename => if ok {
            MoveState::Done(MoveOutcome::Moved)
        } else {
            MoveState::Copy
        },
        MoveState::Copy => if ok {
            MoveState::DeleteSource
        } else {
            MoveState::Done(MoveOutcome::Failed(MoveError::RenameAndCopyFailed))
        },
        MoveState::DeleteSource => if ok {
            MoveState::Done(MoveOutcome::Moved)
        } else {
            MoveState::Done(MoveOutcome::Failed(MoveError::CopiedButSourceRemains))
        },
        MoveState::Done(o) => MoveState::Done(o),
    }
}

/// The operation pending in state `s`, or `None` when the relocation is
/// over.
pub open spec fn spec_action(s: MoveState) -> Option<MoveAction> {
    match s {
        MoveState::Probe => Some(MoveAction::StatSource),
        MoveState::Rename => Some(MoveAction::RenameToDest),
        MoveState::Copy => Some(MoveAction::CopyToDest),
        MoveState::DeleteSource => Some(MoveAction::RemoveSource),
        MoveState::Done(_) => None,
    }
}

/// The operation the surrounding process must perform next, or `None` when
/// the relocation is over. The process performs it and feeds the result to
/// `step`.
pub fn next_action(s: &MoveState) -> (r: Option<MoveAction>)
    ensures
        r == spec_action(*s),
{
    match s {
        MoveState::Probe => Some(MoveAction::StatSource),
        MoveState::Rename => Some(MoveAction::RenameToDest),
        MoveState::Copy => Some(MoveAction::CopyToDest),
        MoveState::DeleteSource => Some(MoveAction::RemoveSource),
        MoveState::Done(_) => None,
    }
}

/// Advances the relocation after its pending operation reported `ok`. A
/// finished relocation stays where it is.
pub fn step(s: MoveState, ok: bool) -> (r: MoveState)
    ensures
        r == spec_step(s, ok),
{
    match s {
        MoveState::Probe => if ok {
            MoveState::Rename
        } else {
            MoveState::Done(MoveOutcome::Skipped)
        },
        MoveState::Rename => if ok {
            MoveState::Done(MoveOutcome::Moved)
        } else {
            MoveState::Copy
        },
        MoveState::Copy => if ok {
            MoveState::DeleteSource
        } else {
            MoveState::Done(MoveOutcome::Failed(MoveError::RenameAndCopyFailed))
        },
        MoveState::DeleteSource => if ok {
            MoveState::Done(MoveOutcome::Moved)
        } else {
            MoveState::Done(MoveOutcome::Failed(MoveError::CopiedButSourceRemains))
        },
        MoveState::Done(o) => MoveState::Done(o),
    }
}

/// A model of the files on disk: each path that exists maps to its bytes.
pub type FileSys = Map<Seq<char>, Seq<u8>>;

/// Two filesystems that agree everywhere outside `p`.
pub open spec fn agree_except(a: FileSys, b: FileSys, p: Seq<char>) -> bool {
    a.remove(p) == b.remove(p)
}

/// Two filesystems that agree everywhere outside `p` and `q`.
pub open spec fn agree_except_two(a: FileSys, b: FileSys, p: Seq<char>, q: Seq<char>) -> bool {
    a.remove(p).remove(q) == b.remove(p).remove(q)
}

/// What each operation, performed between `pre` and `post` on the files on
/// disk, may do, given the result `ok` it reported:
/// - a stat succeeds exactly when the source exists and changes nothing;
/// - a successful rename moves the source's bytes to the destination in one
///   operation; a failed one changes nothing;
/// - a successful copy writes the source's bytes at the destination; a
///   failed one may leave a partial destination but touches nothing else;
/// - a successful remove erases the source; a failed one changes nothing.
pub open spec fn action_effect(
    pre: FileSys,
    action: MoveAction,
    ok: bool,
    post: FileSys,
    from: Seq<char>,
    to: Seq<char>,
) -> bool {
    match action {
        MoveAction::StatSource => post == pre && ok == pre.contains_key(from),
        MoveAction::RenameToDest => if ok {
            pre.contains_key(from) && post == pre.remove(from).insert(to, pre[from])
        } else {
            post == pre
        },
        MoveAction::CopyToDest => if ok {
            pre.contains_key(from) && post == pre.insert(to, pre[from])
        } else {
            agree_except(pre, post, to)
        },
        MoveAction::RemoveSource => if ok {
            post == pre.remove(from)
        } else {
            post == pre
        },
    }
}

/// What holds of the files on disk at each station of a relocation of
/// `from` to `to` that began with the files `fs0`: the heart of the mover's
/// correctness. In every state the source's original bytes survive at the
/// source or at the destination, and a finished `Moved` outcome means the
/// bytes are at the destination and the source is gone.
pub open spec fn move_inv(
    s: MoveState,
    fs: FileSys,
    fs0: FileSys,
    from: Seq<char>,
    to: Seq<char>,
) -> bool {
    match s {
        MoveState::Probe => fs == fs0,
        MoveState::Rename => fs == fs0 && fs0.contains_key(from),
        MoveState::Copy => fs0.contains_key(from) && fs.contains_key(from) && fs[from] == fs0[from]
            && agree_except(fs0, fs, to),
        MoveState::DeleteSource => fs0.contains_key(from) && fs.contains_key(from) && fs[from]
            == fs0[from] && fs.contains_key(to) && fs[to] == fs0[from] && agree_except(fs0, fs, to),
        MoveState::Done(MoveOutcome::Moved) => fs0.contains_key(from) && fs.contains_key(to)
            && fs[to] == fs0[from] && !fs.contains_key(from) && agree_except_two(
            fs0,
            fs,
            from,
            to,
        ),
        MoveState::Done(MoveOutcome::Skipped) => fs == fs0 && !fs0.contains_key(from),
        MoveState::Done(MoveOutcome::Failed(MoveError::RenameAndCopyFailed)) => fs0.contains_key(
            from,
        ) && fs.contains_key(from) && fs[from] == fs0[from] && agree_except(fs0, fs, to),
        MoveState::Done(MoveOutcome::Failed(MoveError::CopiedButSourceRemains)) => fs0.contains_key(
            from,
        ) && fs.contains_key(from) && fs[from] == fs0[from] && fs.contains_key(to) && fs[to]
            == fs0[from] && agree_except(fs0, fs, to),
    }
}

/// A relocation starts at `Probe`, and `move_inv` holds there.
pub proof fn lemma_move_init(fs0: FileSys, from: Seq<char>, to: Seq<char>)
    ensures
        move_inv(MoveState::Probe, fs0, fs0, from, to),
{
}

/// Each step of a relocation preserves `move_inv`: whatever each operation
/// reported, the files on disk stand to the machine's new state as the
/// invariant says. From it follow the fallback guarantee (a `Moved` outcome
/// leaves the source's bytes at the destination and the source gone,
/// whether the rename or the copy-then-delete route was taken) and that no
/// outcome loses the source's bytes.
pub proof fn lemma_move_step(
    s: MoveState,
    ok: bool,
    pre: FileSys,
    post: FileSys,
    fs0: FileSys,
    from: Seq<char>,
    to: Seq<char>,
)
    requires
        from != to,
        move_inv(s, pre, fs0, from, to),
        spec_action(s) matches Some(a) && action_effect(pre, a, ok, post, from, to),
    ensures
        move_inv(spec_step(s, ok), post, fs0, from, to),
{
    match s {
        MoveState::Probe => {
            assert(move_inv(spec_step(s, ok), post, fs0, from, to));
        },
        MoveState::Rename => {
            if ok {
                assert(post == pre.remove(from).insert(to, pre[from]));
                assert(post.remove(from).remove(to) =~= fs0.remove(from).remove(to));
            }
            assert(move_inv(spec_step(s, ok), post, fs0, from, to));
        },
        MoveState::Copy => {
            if ok {
                assert(post.remove(to) =~= pre.remove(to));
            } else {
                assert(pre.remove(to).contains_key(from));
                assert(post.remove(to).contains_key(from));
                assert(post[from] == post.remove(to)[from]);
                assert(pre[from] == pre.remove(to)[from]);
            }
            assert(move_inv(spec_step(s, ok), post, fs0, from, to));
        },
        MoveState::DeleteSource => {
            if ok {
                assert(post == pre.remove(from));
                assert(pre.remove(to) == fs0.remove(to));
                assert(post.remove(from).remove(to) =~= pre.remove(to).remove(from));
                assert(pre.remove(to).remove(from) =~= fs0.remove(to).remove(from));
                assert(fs0.remove(to).remove(from) =~= fs0.remove(from).remove(to));
            }
        },
        MoveState::Done(_) => {},
    }
}

/// Idempotence at the cycle level: an attempt that finds the source gone
/// (for instance because an earlier, successful attempt already moved it)
/// finishes as `Skipped`, touches nothing, and raises no error.
pub proof fn lemma_second_attempt_skips(fs: FileSys, from: Seq<char>, to: Seq<char>, ok: bool)
    requires
        !fs.contains_key(from),
        action_effect(fs, MoveAction::StatSource, ok, fs, from, to),
    ensures
        spec_step(MoveState::Probe, ok) == MoveState::Done(MoveOutcome::Skipped),
        move_inv(MoveState::Done(MoveOutcome::Skipped), fs, fs, from, to),
{
}

/// Moving the same file twice in a row — say, for a duplicate event — never
/// duplicates it and never raises an error: after a first attempt ends
/// `Moved`, the source is gone, so a second attempt on the same pair
/// observes that at its probe, ends `Skipped`, and touches nothing.
pub proof fn lemma_move_idempotent(
    fs0: FileSys,
    fs1: FileSys,
    fs2: FileSys,
    from: Seq<char>,
    to: Seq<char>,
    ok: bool,
)
    requires
        from != to,
        move_inv(MoveState::Done(MoveOutcome::Moved), fs1, fs0, from, to),
        action_effect(fs1, MoveAction::StatSource, ok, fs2, from, to),
    ensures
        spec_step(MoveState::Probe, ok) == MoveState::Done(MoveOutcome::Skipped),
        fs2 == fs1,
        move_inv(MoveState::Done(MoveOutcome::Skipped), fs2, fs1, from, to),
{
}

/// The two-tier fallback, spelled out on the machine itself: a successful
/// rename finishes the relocation at once, with no copy and no delete; a
/// failed rename goes to the copy, a successful copy to the delete, and a
/// successful delete finishes as `Moved`.
pub proof fn lemma_fallback_order()
    ensures
        spec_step(MoveState::Rename, true) == MoveState::Done(MoveOutcome::Moved),
        spec_step(MoveState::Rename, false) == MoveState::Copy,
        spec_step(MoveState::Copy, true) == MoveState::DeleteSource,
        spec_step(MoveState::Copy, false) == MoveState::Done(
            MoveOutcome::Failed(MoveError::RenameAndCopyFailed),
        ),
        spec_step(MoveState::DeleteSource, true) == MoveState::Done(MoveOutcome::Moved),
        spec_step(MoveState::DeleteSource, false) == MoveState::Done(
            MoveOutcome::Failed(MoveError::CopiedButSourceRemains),
        ),
{
}

/// No data loss on partial failure: at every station of a relocation whose
/// source existed at the start, the source's original bytes are still on
/// disk, at the source or at the destination.
pub proof fn lemma_no_data_loss(
    s: MoveState,
    fs: FileSys,
    fs0: FileSys,
    from: Seq<char>,
    to: Seq<char>,
)
    requires
        move_inv(s, fs, fs0, from, to),
        fs0.contains_key(from),
    ensures
        (fs.contains_key(from) && fs[from] == fs0[from]) || (fs.contains_key(to) && fs[to]
            == fs0[from]),
{
}

} // verus!
