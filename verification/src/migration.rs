//! The course of bringing spendable outputs from an older layout to the sweeper.
use crate::hex_utils;
use crate::hex_utils::hex_str;
use crate::sweep;
use crate::sweep::{
    concatenate_processing_outputs, is_moved, pending_listed, processing_listed, tracked_from,
    try_migrate_deprecated_spendable_outputs, DirReply, Layout, Plan, Removal, SweepMigrationError,
    OUTPUT_NAME_LEN, SPEND_DELAY_BLOCKS,
};
use crate::table::Bytes32;
use vstd::prelude::*;

verus! {

/// What is done next about the older layout.
pub enum MigrationStep {
    /// See which directories there are.
    Look,
    /// List the directory of waiting outputs.
    ListPending,
    /// Make the directory of outputs that are collected, unless it is there. `names` are the lengths of
    /// the names of the waiting files, and the file at `at` is moved next.
    MakeDir { names: Vec<usize>, at: usize },
    /// Move the waiting file at `at` to the directory of outputs that are collected, under its name.
    Rename { names: Vec<usize>, at: usize },
    /// List the directory of outputs that are collected.
    ListProcessing,
    /// Read the files in that directory.
    ReadProcessing,
    /// Keep these bytes with the collected outputs under this key.
    Write { key: String, bytes: Vec<u8> },
    /// Remove the directory of outputs that are collected.
    RemoveProcessing,
    /// Read the collected outputs.
    ReadSpendable,
    /// Hand the outputs, so many, over to the sweeper, which spends them from this height on.
    Track { count: usize, from: u32 },
    /// Remove the directory of collected outputs, of which so many were handed over.
    RemoveSpendable { count: usize },
    /// Remove the directory of waiting outputs.
    RemovePending { count: usize },
    /// Mark the migration as done. `migrated` is how many outputs were handed over, if there was an
    /// older layout.
    Mark { migrated: Option<usize> },
    /// Nothing: it is done.
    Done { migrated: Option<usize> },
    /// Nothing: it failed.
    Failed(SweepMigrationError),
}

/// What came of a step.
pub enum MigrationEvent {
    /// Which directories there are.
    Looked(Layout),
    /// What came of listing the waiting outputs, with the lengths of the names of the files.
    PendingListed { reply: DirReply, names: Vec<usize> },
    /// The directory is there, or could not be made.
    DirMade(Result<(), String>),
    /// The file was moved, or could not be.
    Renamed(Result<(), String>),
    /// What came of listing the outputs that are collected.
    ProcessingListed(DirReply),
    /// The contents of the files that could be read, in the order of the listing, and random bytes.
    ProcessingRead { files: Vec<Vec<u8>>, entropy: Bytes32 },
    /// The bytes are kept, or could not be.
    Written(Result<(), String>),
    /// What came of removing a directory.
    Removed(Removal),
    /// How many outputs could be read, and the height of the best block.
    OutputsRead { count: usize, height: u32 },
    /// Whether the sweeper has taken the outputs.
    HandedOver(bool),
    /// The migration is marked as done, or could not be.
    Marked(Result<(), String>),
}

/// What is done next, with sequences in place of vectors and texts.
pub enum MigrationView {
    Look,
    ListPending,
    MakeDir { names: Seq<usize>, at: nat },
    Rename { names: Seq<usize>, at: nat },
    ListProcessing,
    ReadProcessing,
    Write { key: Seq<char>, bytes: Seq<u8> },
    RemoveProcessing,
    ReadSpendable,
    Track { count: usize, from: u32 },
    RemoveSpendable { count: usize },
    RemovePending { count: usize },
    Mark { migrated: Option<usize> },
    Done { migrated: Option<usize> },
    Failed(MigrationErrorView),
}

/// Why it failed, with sequences in place of texts.
pub enum MigrationErrorView {
    Io { ctx: Seq<char>, source: Seq<char> },
    Persist(Seq<char>),
    TrackSpendable,
}

impl View for SweepMigrationError {
    type V = MigrationErrorView;

    open spec fn view(&self) -> MigrationErrorView {
        match self {
            SweepMigrationError::Io { ctx, source } => MigrationErrorView::Io {
                ctx: ctx@,
                source: source@,
            },
            SweepMigrationError::Persist(e) => MigrationErrorView::Persist(e@),
            SweepMigrationError::TrackSpendable => MigrationErrorView::TrackSpendable,
        }
    }
}

impl View for MigrationStep {
    type V = MigrationView;

    open spec fn view(&self) -> MigrationView {
        match self {
            MigrationStep::Look => MigrationView::Look,
            MigrationStep::ListPending => MigrationView::ListPending,
            MigrationStep::MakeDir { names, at } => MigrationView::MakeDir {
                names: names@,
                at: *at as nat,
            },
            MigrationStep::Rename { names, at } => MigrationView::Rename {
                names: names@,
                at: *at as nat,
            },
            MigrationStep::ListProcessing => MigrationView::ListProcessing,
            MigrationStep::ReadProcessing => MigrationView::ReadProcessing,
            MigrationStep::Write { key, bytes } => MigrationView::Write { key: key@, bytes: bytes@ },
            MigrationStep::RemoveProcessing => MigrationView::RemoveProcessing,
            MigrationStep::ReadSpendable => MigrationView::ReadSpendable,
            MigrationStep::Track { count, from } => MigrationView::Track {
                count: *count,
                from: *from,
            },
            MigrationStep::RemoveSpendable { count } => MigrationView::RemoveSpendable {
                count: *count,
            },
            MigrationStep::RemovePending { count } => MigrationView::RemovePending {
                count: *count,
            },
            MigrationStep::Mark { migrated } => MigrationView::Mark { migrated: *migrated },
            MigrationStep::Done { migrated } => MigrationView::Done { migrated: *migrated },
            MigrationStep::Failed(e) => MigrationView::Failed(e@),
        }
    }
}

/// The position of the first file from `from` on that is moved, or the number of files if none is.
pub open spec fn next_moved(names: Seq<usize>, from: nat) -> nat
    decreases names.len() - from,
{
    if from >= names.len() {
        names.len()
    } else if names[from as int] == OUTPUT_NAME_LEN {
        from
    } else {
        next_moved(names, from + 1)
    }
}

/// What is done about the waiting files from `from` on: the next one that is moved is, and after the
/// last one the outputs are collected. The directory that they are moved to is made for a file that is
/// moved, and for no other.
pub open spec fn moving(names: Seq<usize>, from: nat) -> MigrationView {
    let at = next_moved(names, from);
    if at < names.len() {
        MigrationView::MakeDir { names, at }
    } else {
        MigrationView::ListProcessing
    }
}

/// What is done after `event`.
pub open spec fn next_migration(state: MigrationView, event: MigrationEvent) -> MigrationView {
    match (state, event) {
        (MigrationView::Look, MigrationEvent::Looked(layout)) => match sweep::plan_of(layout) {
            Plan::Skip => MigrationView::Done { migrated: None },
            Plan::MarkDone => MigrationView::Mark { migrated: None },
            Plan::Migrate => MigrationView::ListPending,
        },
        (MigrationView::ListPending, MigrationEvent::PendingListed { reply, names }) => match reply {
            DirReply::Missing => MigrationView::ListProcessing,
            DirReply::Listed => moving(names@, 0),
            DirReply::Unreadable(e) => MigrationView::Failed(
                MigrationErrorView::Io { ctx: "reading pending dir"@, source: e@ },
            ),
        },
        (MigrationView::MakeDir { names, at }, MigrationEvent::DirMade(made)) => match made {
            Ok(_) => MigrationView::Rename { names, at },
            Err(e) => MigrationView::Failed(
                MigrationErrorView::Io { ctx: "creating processing dir"@, source: e@ },
            ),
        },
        (MigrationView::Rename { names, at }, MigrationEvent::Renamed(_)) => moving(names, at + 1),
        (MigrationView::ListProcessing, MigrationEvent::ProcessingListed(reply)) => match reply {
            DirReply::Missing => MigrationView::ReadSpendable,
            DirReply::Listed => MigrationView::ReadProcessing,
            DirReply::Unreadable(e) => MigrationView::Failed(
                MigrationErrorView::Io { ctx: "reading processing dir"@, source: e@ },
            ),
        },
        (MigrationView::ReadProcessing, MigrationEvent::ProcessingRead { files, entropy }) =>
            if sweep::joined(files@).len() == 0 {
            MigrationView::ReadSpendable
        } else {
            MigrationView::Write {
                key: hex_utils::hex_of(entropy@),
                bytes: sweep::joined(files@),
            }
        },
        (MigrationView::Write { .. }, MigrationEvent::Written(written)) => match written {
            Ok(_) => MigrationView::RemoveProcessing,
            Err(e) => MigrationView::Failed(MigrationErrorView::Persist(e@)),
        },
        (MigrationView::RemoveProcessing, MigrationEvent::Removed(_)) =>
            MigrationView::ReadSpendable,
        (MigrationView::ReadSpendable, MigrationEvent::OutputsRead { count, height }) => if count
            > 0 {
            MigrationView::Track { count, from: (height + SPEND_DELAY_BLOCKS) as u32 }
        } else {
            MigrationView::RemoveSpendable { count }
        },
        (MigrationView::Track { count, .. }, MigrationEvent::HandedOver(taken)) => if taken {
            MigrationView::RemoveSpendable { count }
        } else {
            MigrationView::Failed(MigrationErrorView::TrackSpendable)
        },
        (MigrationView::RemoveSpendable { count }, MigrationEvent::Removed(_)) =>
            MigrationView::RemovePending { count },
        (MigrationView::RemovePending { count }, MigrationEvent::Removed(_)) =>
            MigrationView::Mark { migrated: Some(count) },
        (MigrationView::Mark { migrated }, MigrationEvent::Marked(_)) => MigrationView::Done {
            migrated,
        },
        _ => state,
    }
}

/// Whether there are blocks left after the best one, if outputs are to be spent then.
pub open spec fn event_fits(event: MigrationEvent) -> bool {
    event matches MigrationEvent::OutputsRead { count, height } ==> count > 0 ==> height
        + SPEND_DELAY_BLOCKS <= u32::MAX
}

fn move_from(names: Vec<usize>, from: usize) -> (r: MigrationStep)
    requires
        from <= names@.len(),
    ensures
        r@ == moving(names@, from as nat),
{
    let n: usize = names.len();
    let mut at: usize = from;
    while at < n && !is_moved(names[at])
        invariant
            n == names@.len(),
            from <= at <= n,
            next_moved(names@, from as nat) == next_moved(names@, at as nat),
        decreases n - at,
    {
        at = at + 1;
    }
    if at < n {
        MigrationStep::MakeDir { names, at }
    } else {
        MigrationStep::ListProcessing
    }
}

/// What is done after `event`.
pub fn advance_migration(state: MigrationStep, event: MigrationEvent) -> (r: MigrationStep)
    requires
        event_fits(event),
    ensures
        r@ == next_migration(state@, event),
{
    match (state, event) {
        (MigrationStep::Look, MigrationEvent::Looked(layout)) => {
            let (plan, _) = try_migrate_deprecated_spendable_outputs(layout);
            match plan {
                Plan::Skip => MigrationStep::Done { migrated: None },
                Plan::MarkDone => MigrationStep::Mark { migrated: None },
                Plan::Migrate => MigrationStep::ListPending,
            }
        },
        (MigrationStep::ListPending, MigrationEvent::PendingListed { reply, names }) => {
            match pending_listed(reply) {
                Ok(true) => move_from(names, 0),
                Ok(false) => MigrationStep::ListProcessing,
                Err(e) => MigrationStep::Failed(e),
            }
        },
        (MigrationStep::MakeDir { names, at }, MigrationEvent::DirMade(made)) => match made {
            Ok(_) => MigrationStep::Rename { names, at },
            Err(e) => MigrationStep::Failed(
                SweepMigrationError::Io { ctx: "creating processing dir", source: e },
            ),
        },
        (MigrationStep::Rename { names, at }, MigrationEvent::Renamed(_)) => {
            if at < names.len() {
                move_from(names, at + 1)
            } else {
                MigrationStep::ListProcessing
            }
        },
        (MigrationStep::ListProcessing, MigrationEvent::ProcessingListed(reply)) => {
            match processing_listed(reply) {
                Ok(true) => MigrationStep::ReadProcessing,
                Ok(false) => MigrationStep::ReadSpendable,
                Err(e) => MigrationStep::Failed(e),
            }
        },
        (MigrationStep::ReadProcessing, MigrationEvent::ProcessingRead { files, entropy }) => {
            match concatenate_processing_outputs(&files) {
                None => MigrationStep::ReadSpendable,
                Some(bytes) => MigrationStep::Write { key: hex_str(&entropy), bytes },
            }
        },
        (MigrationStep::Write { .. }, MigrationEvent::Written(written)) => match written {
            Ok(_) => MigrationStep::RemoveProcessing,
            Err(e) => MigrationStep::Failed(SweepMigrationError::Persist(e)),
        },
        (MigrationStep::RemoveProcessing, MigrationEvent::Removed(_)) =>
            MigrationStep::ReadSpendable,
        (MigrationStep::ReadSpendable, MigrationEvent::OutputsRead { count, height }) => {
            match tracked_from(count, height) {
                Some(from) => MigrationStep::Track { count, from },
                None => MigrationStep::RemoveSpendable { count },
            }
        },
        (MigrationStep::Track { count, .. }, MigrationEvent::HandedOver(taken)) => if taken {
            MigrationStep::RemoveSpendable { count }
        } else {
            MigrationStep::Failed(SweepMigrationError::TrackSpendable)
        },
        (MigrationStep::RemoveSpendable { count }, MigrationEvent::Removed(_)) =>
            MigrationStep::RemovePending { count },
        (MigrationStep::RemovePending { count }, MigrationEvent::Removed(_)) =>
            MigrationStep::Mark { migrated: Some(count) },
        (MigrationStep::Mark { migrated }, MigrationEvent::Marked(_)) => MigrationStep::Done {
            migrated,
        },
        (state, _) => state,
    }
}

/// What is done after any number of events.
pub open spec fn migration_after(events: Seq<MigrationEvent>) -> MigrationView
    decreases events.len(),
{
    if events.len() == 0 {
        MigrationView::Look
    } else {
        next_migration(migration_after(events.drop_last()), events.last())
    }
}

/// How many outputs the sweeper has by now, if the handing over is behind.
pub open spec fn settled(state: MigrationView) -> Option<usize> {
    match state {
        MigrationView::RemoveSpendable { count } => Some(count),
        MigrationView::RemovePending { count } => Some(count),
        MigrationView::Mark { migrated: Some(count) } => Some(count),
        MigrationView::Done { migrated: Some(count) } => Some(count),
        MigrationView::Mark { migrated: None } => Some(0),
        MigrationView::Done { migrated: None } => Some(0),
        _ => None,
    }
}

/// How often outputs were handed over.
pub open spec fn handed_over(events: Seq<MigrationEvent>) -> nat
    decreases events.len(),
{
    if events.len() == 0 {
        0
    } else {
        handed_over(events.drop_last()) + (if migration_after(events.drop_last()) is Track
            && events.last() == MigrationEvent::HandedOver(true) {
            1nat
        } else {
            0
        })
    }
}

/// Outputs are handed over once if there are some, and never if there are none. As long as that is
/// ahead, none are.
pub proof fn law_handed_over_once(events: Seq<MigrationEvent>)
    ensures
        handed_over(events) == (match settled(migration_after(events)) {
            Some(count) => if count > 0 {
                1nat
            } else {
                0
            },
            None => 0,
        }),
        migration_after(events) matches MigrationView::Track { count, .. } ==> count > 0,
    decreases events.len(),
{
    if events.len() > 0 {
        law_handed_over_once(events.drop_last());
    }
}

/// The collected outputs are removed only after the sweeper has taken them, or where there are none;
/// the migration is marked as done only after that, or where there is no older layout.
pub proof fn law_marked_only_after_success(state: MigrationView, event: MigrationEvent)
    ensures
        ({
            let next = next_migration(state, event);
            &&& next is RemoveSpendable && next != state ==> (state is Track && event
                == MigrationEvent::HandedOver(true)) || (state is ReadSpendable
                && next->RemoveSpendable_count == 0)
            &&& next is RemovePending && next != state ==> state is RemoveSpendable
            &&& next is Mark && next != state ==> state is RemovePending || (state is Look
                && next->Mark_migrated is None)
        }),
{
}

/// A migration that fails has neither removed the waiting or the collected outputs nor marked itself as
/// done, and does neither afterwards: whatever happens, it stays failed.
pub proof fn law_failure_keeps_everything(events: Seq<MigrationEvent>, i: int)
    requires
        migration_after(events) is Failed,
        0 <= i <= events.len(),
    ensures
        settled(migration_after(events.take(i))) is None,
        forall|event: MigrationEvent| #[trigger]
            next_migration(migration_after(events), event) == migration_after(events),
    decreases events.len(),
{
    if i == events.len() {
        assert(events.take(i) =~= events);
    } else {
        let before = events.drop_last();
        assert(before.take(i) =~= events.take(i));
        if migration_after(before) is Failed {
            law_failure_keeps_everything(before, i);
        } else if settled(migration_after(before.take(i))) is Some {
            lemma_settled_stays(before, i);
        }
    }
}

proof fn lemma_settled_stays(events: Seq<MigrationEvent>, i: int)
    requires
        0 <= i <= events.len(),
        settled(migration_after(events.take(i))) is Some,
    ensures
        settled(migration_after(events)) is Some,
    decreases events.len(),
{
    if i == events.len() {
        assert(events.take(i) =~= events);
    } else {
        assert(events.drop_last().take(i) =~= events.take(i));
        lemma_settled_stays(events.drop_last(), i);
    }
}

/// The positions of the files that are moved from `from` on, in order.
pub open spec fn moves_from(names: Seq<usize>, from: nat) -> Seq<nat>
    decreases names.len() - from,
    when from <= names.len()
    via moves_end
{
    let at = next_moved(names, from);
    if at < names.len() {
        seq![at] + moves_from(names, at + 1)
    } else {
        Seq::empty()
    }
}

#[via_fn]
proof fn moves_end(names: Seq<usize>, from: nat) {
    lemma_next_moved(names, from);
}

proof fn lemma_next_moved(names: Seq<usize>, from: nat)
    requires
        from <= names.len(),
    ensures
        from <= next_moved(names, from) <= names.len(),
        next_moved(names, from) < names.len() ==> names[next_moved(names, from) as int]
            == OUTPUT_NAME_LEN,
        forall|i: int| from <= i < next_moved(names, from) ==> #[trigger] names[i] != OUTPUT_NAME_LEN,
    decreases names.len() - from,
{
    if from < names.len() && names[from as int] != OUTPUT_NAME_LEN {
        lemma_next_moved(names, from + 1);
    }
}

/// Each waiting file is moved whose name has the length of one with outputs, and no other. A file that
/// cannot be moved stays, and the others are moved all the same.
pub proof fn law_every_output_is_moved(names: Seq<usize>, from: nat)
    requires
        from <= names.len(),
    ensures
        forall|i: nat| #[trigger]
            moves_from(names, from).contains(i) <==> from <= i < names.len() && names[i as int]
                == OUTPUT_NAME_LEN,
        moving(names, from) == (if moves_from(names, from).len() > 0 {
            MigrationView::MakeDir { names, at: moves_from(names, from)[0] }
        } else {
            MigrationView::ListProcessing
        }),
        forall|at: nat, outcome: Result<(), String>|
            #![trigger next_migration(
                MigrationView::Rename { names, at },
                MigrationEvent::Renamed(outcome),
            )]
            next_migration(MigrationView::Rename { names, at }, MigrationEvent::Renamed(outcome))
                == moving(names, at + 1),
    decreases names.len() - from,
{
    lemma_next_moved(names, from);
    let at = next_moved(names, from);
    let all = moves_from(names, from);
    if at < names.len() {
        let rest = moves_from(names, at + 1);
        law_every_output_is_moved(names, at + 1);
        assert(all =~= seq![at] + rest);
        assert forall|i: nat| #[trigger] all.contains(i) <==> from <= i < names.len()
            && names[i as int] == OUTPUT_NAME_LEN by {
            if all.contains(i) {
                let k = choose|k: int| 0 <= k < all.len() && all[k] == i;
                if k > 0 {
                    assert(rest[k - 1] == i);
                    assert(rest.contains(i));
                }
            }
            if from <= i < names.len() && names[i as int] == OUTPUT_NAME_LEN {
                if i == at {
                    assert(all[0] == i);
                } else {
                    assert(i > at);
                    assert(rest.contains(i));
                    let k = choose|k: int| 0 <= k < rest.len() && rest[k] == i;
                    assert(all[k + 1] == i);
                }
            }
        }
    }
}

/// The key under which outputs are kept has as many digits as the name of a file with outputs.
pub proof fn law_key_is_a_name(entropy: Bytes32)
    ensures
        hex_utils::hex_of(entropy@).len() == OUTPUT_NAME_LEN,
{
}

/// A migration in which everything succeeds goes from the waiting files to the sweeper and is then marked
/// as done: the contents of the collected files are kept under a name of their own, the collected outputs
/// are handed over to be spent two blocks later, and what is no longer needed is removed.
pub proof fn law_migration_runs_through(
    names: Vec<usize>,
    at: nat,
    files: Vec<Vec<u8>>,
    entropy: Bytes32,
    key: Seq<char>,
    bytes: Seq<u8>,
    count: usize,
    height: u32,
    from: u32,
    removed: Removal,
    marked: Result<(), String>,
    migrated: Option<usize>,
)
    requires
        height + 2 <= u32::MAX,
    ensures
        next_migration(
            MigrationView::ListPending,
            MigrationEvent::PendingListed { reply: DirReply::Listed, names },
        ) == moving(names@, 0),
        next_migration(
            MigrationView::ListPending,
            MigrationEvent::PendingListed { reply: DirReply::Missing, names },
        ) == MigrationView::ListProcessing,
        next_migration(
            MigrationView::MakeDir { names: names@, at },
            MigrationEvent::DirMade(Ok(())),
        ) == (MigrationView::Rename { names: names@, at }),
        next_migration(
            MigrationView::ListProcessing,
            MigrationEvent::ProcessingListed(DirReply::Listed),
        ) == MigrationView::ReadProcessing,
        next_migration(
            MigrationView::ListProcessing,
            MigrationEvent::ProcessingListed(DirReply::Missing),
        ) == MigrationView::ReadSpendable,
        sweep::joined(files@).len() > 0 ==> next_migration(
            MigrationView::ReadProcessing,
            MigrationEvent::ProcessingRead { files, entropy },
        ) == (MigrationView::Write {
            key: hex_utils::hex_of(entropy@),
            bytes: sweep::joined(files@),
        }),
        sweep::joined(files@).len() == 0 ==> next_migration(
            MigrationView::ReadProcessing,
            MigrationEvent::ProcessingRead { files, entropy },
        ) == MigrationView::ReadSpendable,
        next_migration(MigrationView::Write { key, bytes }, MigrationEvent::Written(Ok(())))
            == MigrationView::RemoveProcessing,
        next_migration(MigrationView::RemoveProcessing, MigrationEvent::Removed(removed))
            == MigrationView::ReadSpendable,
        count > 0 ==> next_migration(
            MigrationView::ReadSpendable,
            MigrationEvent::OutputsRead { count, height },
        ) == (MigrationView::Track { count, from: (height + 2) as u32 }),
        count == 0 ==> next_migration(
            MigrationView::ReadSpendable,
            MigrationEvent::OutputsRead { count, height },
        ) == (MigrationView::RemoveSpendable { count }),
        next_migration(MigrationView::Track { count, from }, MigrationEvent::HandedOver(true)) == (
        MigrationView::RemoveSpendable { count }),
        next_migration(
            MigrationView::RemoveSpendable { count },
            MigrationEvent::Removed(removed),
        ) == (MigrationView::RemovePending { count }),
        next_migration(MigrationView::RemovePending { count }, MigrationEvent::Removed(removed))
            == (MigrationView::Mark { migrated: Some(count) }),
        next_migration(MigrationView::Mark { migrated }, MigrationEvent::Marked(marked)) == (
        MigrationView::Done { migrated }),
{
}

/// A migration fails where a directory cannot be listed or made, the contents cannot be kept, or the
/// sweeper does not take the outputs, and then says so; it does not fail over a file that cannot be moved,
/// a directory that cannot be removed or a mark that cannot be written.
pub proof fn law_what_makes_a_migration_fail(state: MigrationView, event: MigrationEvent)
    ensures
        next_migration(state, event) is Failed <==> state is Failed || {
            ||| state is ListPending && (event matches MigrationEvent::PendingListed {
                reply: DirReply::Unreadable(_),
                ..
            })
            ||| state is MakeDir && (event matches MigrationEvent::DirMade(Err(_)))
            ||| state is ListProcessing && (event matches MigrationEvent::ProcessingListed(
                DirReply::Unreadable(_),
            ))
            ||| state is Write && (event matches MigrationEvent::Written(Err(_)))
            ||| state is Track && event == MigrationEvent::HandedOver(false)
        },
        state is Look ==> (event matches MigrationEvent::Looked(layout) ==> {
            let next = next_migration(state, event);
            &&& layout.migrated ==> next == (MigrationView::Done { migrated: None })
            &&& next is ListPending <==> !layout.migrated && (layout.pending || layout.processing
                || layout.spendable)
            &&& next is Mark <==> !layout.migrated && !layout.pending && !layout.processing
                && !layout.spendable
        }),
{
}

} // verus!
