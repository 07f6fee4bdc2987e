//! Bringing spendable outputs from an older layout of the data directory to the sweeper.
use crate::hex_utils;
use crate::logging;
use crate::logging::{log_debug, log_error, log_info, log_warn, Level, Message, MessageView};
use crate::text;
use crate::text::number;
use lightning::sign::SpendableOutputDescriptor;
use lightning::util::ser::Readable;
use vstd::prelude::*;

verus! {

/// Where outputs used to wait until they were settled.
pub const DEPRECATED_PENDING_SPENDABLE_OUTPUT_DIR: &'static str = "pending_spendable_outputs";

/// The file that marks the migration as done, so that it is not run again.
pub const MIGRATION_SENTINEL_FNAME: &'static str = ".spendable_outputs_migrated";

/// What the file that marks the migration as done holds.
pub const MIGRATION_SENTINEL_TEXT: &'static str = "ok";

/// Where the collected outputs are kept.
pub const SPENDABLE_OUTPUTS_DIR: &'static str = "spendable_outputs";

/// Where outputs are kept while they are collected.
pub const PROCESSING_SPENDABLE_OUTPUT_DIR: &'static str = "processing_spendable_outputs";

/// How long the name of a file with outputs is: 32 bytes in hexadecimal.
pub const OUTPUT_NAME_LEN: usize = 64;

/// How many blocks pass before migrated outputs are spent.
pub const SPEND_DELAY_BLOCKS: u32 = 2;

/// Why outputs were not brought to the sweeper.
#[derive(Debug)]
pub enum SweepMigrationError {
    /// A file or directory could not be used.
    Io {
        /// What was being done.
        ctx: &'static str,
        /// What went wrong.
        source: String,
    },
    /// The collected outputs could not be kept.
    Persist(String),
    /// The sweeper did not take the outputs.
    TrackSpendable,
}

impl SweepMigrationError {
    /// The reason as it is shown.
    pub open spec fn shown(self) -> Seq<char> {
        match self {
            SweepMigrationError::Io { ctx, source } => "I/O error while "@ + ctx@ + ": "@
                + source@,
            SweepMigrationError::Persist(e) => "failed to persist migrated outputs: "@ + e@,
            SweepMigrationError::TrackSpendable =>
                "failed to track migrated outputs with sweeper"@,
        }
    }

    /// The reason as text.
    pub fn to_text(&self) -> (r: String)
        ensures
            r@ == self.shown(),
    {
        match self {
            SweepMigrationError::Io { ctx, source } => {
                let mut t = "I/O error while ".to_owned();
                t.append(*ctx);
                t.append(": ");
                t.append(source.as_str());
                t
            },
            SweepMigrationError::Persist(e) => {
                let mut t = "failed to persist migrated outputs: ".to_owned();
                t.append(e.as_str());
                t
            },
            SweepMigrationError::TrackSpendable =>
                "failed to track migrated outputs with sweeper".to_owned(),
        }
    }
}

/// The path of an entry of the data directory.
pub fn entry_path(ldk_data_dir: &str, name: &str) -> (r: String)
    ensures
        r@ == ldk_data_dir@ + "/"@ + name@,
{
    let mut t = ldk_data_dir.to_owned();
    t.append("/");
    t.append(name);
    t
}

/// Whether a migration was done before, and which directories of the older layout there are.
#[derive(Clone, Copy, Debug, PartialEq, Eq, Structural)]
pub struct Layout {
    /// Whether the file that marks the migration as done is there.
    pub migrated: bool,
    /// Whether there are outputs that wait.
    pub pending: bool,
    /// Whether there are outputs that are being collected.
    pub processing: bool,
    /// Whether there are collected outputs.
    pub spendable: bool,
}

/// What is done about the older layout.
#[derive(Clone, Copy, Debug, PartialEq, Eq, Structural)]
pub enum Plan {
    /// Nothing: it was done before.
    Skip,
    /// Nothing but to mark it as done: there is no older layout.
    MarkDone,
    /// The outputs are collected and handed over.
    Migrate,
}

/// What is done about the older layout.
pub open spec fn plan_of(layout: Layout) -> Plan {
    if layout.migrated {
        Plan::Skip
    } else if !layout.pending && !layout.processing && !layout.spendable {
        Plan::MarkDone
    } else {
        Plan::Migrate
    }
}

/// What is said before anything is done about the older layout.
pub open spec fn plan_messages(plan: Plan) -> Seq<MessageView> {
    let begin = logging::log(
        Level::Info,
        "Beginning migration of deprecated spendable outputs"@,
    );
    match plan {
        Plan::Skip => seq![
            logging::log(
                Level::Debug,
                "Spendable-outputs migration already completed; skipping"@,
            ),
        ],
        Plan::MarkDone => seq![
            begin,
            logging::log(Level::Info, "No deprecated spendable outputs to migrate"@),
        ],
        Plan::Migrate => seq![begin],
    }
}

/// Decides what is done about the older layout, and what is said about it.
pub fn try_migrate_deprecated_spendable_outputs(layout: Layout) -> (r: (Plan, Vec<Message>))
    ensures
        r.0 == plan_of(layout),
        logging::message_views(r.1@) == plan_messages(plan_of(layout)),
{
    let mut said: Vec<Message> = Vec::new();
    let plan = if layout.migrated {
        said.push(
            log_debug("Spendable-outputs migration already completed; skipping".to_owned()),
        );
        Plan::Skip
    } else {
        said.push(log_info("Beginning migration of deprecated spendable outputs".to_owned()));
        if !layout.pending && !layout.processing && !layout.spendable {
            said.push(log_info("No deprecated spendable outputs to migrate".to_owned()));
            Plan::MarkDone
        } else {
            Plan::Migrate
        }
    };
    assert(logging::message_views(said@) =~= plan_messages(plan));
    (plan, said)
}

/// What came of listing a directory.
pub enum DirReply {
    /// There is none.
    Missing,
    /// It cannot be listed, for this reason.
    Unreadable(String),
    /// It can be listed.
    Listed,
}

/// Whether the entries of the directory of waiting outputs are gone through.
pub fn pending_listed(reply: DirReply) -> (r: Result<bool, SweepMigrationError>)
    ensures
        match reply {
            DirReply::Missing => r == Ok::<bool, SweepMigrationError>(false),
            DirReply::Listed => r == Ok::<bool, SweepMigrationError>(true),
            DirReply::Unreadable(e) => r matches Err(SweepMigrationError::Io { ctx, source })
                && ctx@ == "reading pending dir"@ && source == e,
        },
{
    match reply {
        DirReply::Missing => Ok(false),
        DirReply::Listed => Ok(true),
        DirReply::Unreadable(e) => Err(
            SweepMigrationError::Io { ctx: "reading pending dir", source: e },
        ),
    }
}

/// Whether the entries of the directory of outputs that are collected are gone through.
pub fn processing_listed(reply: DirReply) -> (r: Result<bool, SweepMigrationError>)
    ensures
        match reply {
            DirReply::Missing => r == Ok::<bool, SweepMigrationError>(false),
            DirReply::Listed => r == Ok::<bool, SweepMigrationError>(true),
            DirReply::Unreadable(e) => r matches Err(SweepMigrationError::Io { ctx, source })
                && ctx@ == "reading processing dir"@ && source == e,
        },
{
    match reply {
        DirReply::Missing => Ok(false),
        DirReply::Listed => Ok(true),
        DirReply::Unreadable(e) => Err(
            SweepMigrationError::Io { ctx: "reading processing dir", source: e },
        ),
    }
}

/// Whether the entries of the directory of collected outputs are gone through, and what is said if
/// they cannot be.
pub fn spendable_listed(reply: DirReply) -> (r: (bool, Option<Message>))
    ensures
        match reply {
            DirReply::Missing => r == (false, None::<Message>),
            DirReply::Listed => r == (true, None::<Message>),
            DirReply::Unreadable(e) => {
                &&& !r.0
                &&& r.1 matches Some(m) && m@ == logging::log(
                    Level::Warn,
                    "Skipping spendable_outputs directory (read failed): "@ + e@,
                )
            },
        },
{
    match reply {
        DirReply::Missing => (false, None),
        DirReply::Listed => (true, None),
        DirReply::Unreadable(e) => {
            let mut t = "Skipping spendable_outputs directory (read failed): ".to_owned();
            t.append(e.as_str());
            (false, Some(log_warn(t)))
        },
    }
}

/// Whether a name of so many bytes is the one of a file with outputs.
pub open spec fn names_output(name_len: nat) -> bool {
    name_len == 64
}

/// The name of a file with outputs is as long as 32 bytes in hexadecimal; a longer or shorter one is not
/// the name of one.
pub proof fn law_output_names_are_hexadecimal(bytes: Seq<u8>)
    ensures
        names_output(hex_utils::hex_of(bytes).len()) <==> bytes.len() == 32,
{
}

/// Whether a waiting file is moved. One with a name of another length is one that is still being
/// written.
pub fn is_moved(name_len: usize) -> (r: bool)
    ensures
        r == (name_len == OUTPUT_NAME_LEN),
        r == names_output(name_len as nat),
{
    name_len == OUTPUT_NAME_LEN
}

/// The contents of files, one after the other.
pub open spec fn joined(files: Seq<Vec<u8>>) -> Seq<u8>
    decreases files.len(),
{
    if files.len() == 0 {
        Seq::empty()
    } else {
        joined(files.drop_last()) + files.last()@
    }
}

/// What is kept of the files that were collected: their contents, one after the other. Nothing is
/// kept if there is nothing in them.
pub fn concatenate_processing_outputs(files: &Vec<Vec<u8>>) -> (r: Option<Vec<u8>>)
    ensures
        match r {
            None => joined(files@) == Seq::<u8>::empty(),
            Some(b) => b@ == joined(files@) && b@.len() > 0,
        },
{
    let n: usize = files.len();
    let mut out: Vec<u8> = Vec::new();
    let mut i: usize = 0;
    assert(files@.take(0) =~= Seq::<Vec<u8>>::empty());
    while i < n
        invariant
            n == files@.len(),
            i <= n,
            out@ == joined(files@.take(i as int)),
        decreases n - i,
    {
        assert(files@.take(i + 1).drop_last() =~= files@.take(i as int));
        out.extend_from_slice(files[i].as_slice());
        assert(out@ =~= joined(files@.take(i as int)) + files@[i as int]@);
        i = i + 1;
    }
    assert(files@.take(n as int) =~= files@);
    if out.len() == 0 {
        None
    } else {
        Some(out)
    }
}

/// How many bytes the descriptor at the front of `bytes` takes, or the reason why there is none.
pub uninterp spec fn descriptor_at(bytes: Seq<u8>) -> Result<nat, Seq<char>>;

/// Calls `Readable::read` of `lightning::sign::SpendableOutputDescriptor` on a cursor over `bytes`.
/// Claims that whether it reads a descriptor, how far the cursor then stands, and how the error is
/// shown otherwise follow from the bytes alone, and that a descriptor takes at least one byte, which
/// says what kind it is of, and no more bytes than there are.
#[verifier::external_body]
fn read_descriptor(bytes: &[u8]) -> (r: Result<u64, String>)
    ensures
        match r {
            Ok(n) => descriptor_at(bytes@) == Ok::<nat, Seq<char>>(n as nat) && 0 < n
                <= bytes@.len(),
            Err(e) => descriptor_at(bytes@) == Err::<nat, Seq<char>>(e@),
        },
{
    let mut cursor = bitcoin::io::Cursor::new(bytes);
    match <SpendableOutputDescriptor as Readable>::read(&mut cursor) {
        Ok(_) => Ok(cursor.position()),
        Err(e) => Err(format!("{:?}", e)),
    }
}

/// Where the descriptors of a file stand, and where and why the reading of it ended early, if it
/// did.
#[verifier::ext_equal]
pub struct CutsView {
    /// Where each descriptor begins and ends.
    pub cuts: Seq<(nat, nat)>,
    /// Where no descriptor could be read, and why.
    pub failure: Option<(nat, Seq<char>)>,
}

/// Where the descriptors of a file stand from `at` on: one after the other, up to the end of the
/// file or to where none can be read.
pub open spec fn cuts_from(bytes: Seq<u8>, at: nat) -> CutsView
    decreases bytes.len() - at,
{
    if at >= bytes.len() {
        CutsView { cuts: Seq::empty(), failure: None }
    } else {
        match descriptor_at(bytes.skip(at as int)) {
            Ok(n) => if 0 < n <= bytes.len() - at {
                let rest = cuts_from(bytes, at + n);
                CutsView { cuts: seq![(at, at + n)] + rest.cuts, failure: rest.failure }
            } else {
                CutsView { cuts: Seq::empty(), failure: None }
            },
            Err(e) => CutsView { cuts: Seq::empty(), failure: Some((at, e)) },
        }
    }
}

/// Where the descriptors of a file stand, and where and why the reading of it ended early, if it
/// did.
#[derive(Debug)]
pub struct Cuts {
    /// Where each descriptor begins and ends.
    pub cuts: Vec<(usize, usize)>,
    /// Where no descriptor could be read, and why.
    pub failure: Option<(usize, String)>,
}

impl View for Cuts {
    type V = CutsView;

    open spec fn view(&self) -> CutsView {
        CutsView {
            cuts: Seq::new(
                self.cuts@.len(),
                |i: int| (self.cuts@[i].0 as nat, self.cuts@[i].1 as nat),
            ),
            failure: match self.failure {
                Some((at, e)) => Some((at as nat, e@)),
                None => None,
            },
        }
    }
}

/// Finds the descriptors in the bytes of a file.
pub fn read_outputs_from_file(bytes: &[u8]) -> (r: Cuts)
    ensures
        r@ == cuts_from(bytes@, 0),
{
    let total: usize = bytes.len();
    let mut r = Cuts { cuts: Vec::new(), failure: None };
    let mut at: usize = 0;
    assert(r@.cuts + cuts_from(bytes@, 0).cuts =~= cuts_from(bytes@, 0).cuts);
    while at < total
        invariant
            total == bytes@.len(),
            at <= total,
            r.failure is None,
            cuts_from(bytes@, 0) == (CutsView {
                cuts: r@.cuts + cuts_from(bytes@, at as nat).cuts,
                failure: cuts_from(bytes@, at as nat).failure,
            }),
        decreases total - at,
    {
        let rest = vstd::slice::slice_subrange(bytes, at, total);
        assert(rest@ =~= bytes@.skip(at as int));
        match read_descriptor(rest) {
            Ok(n) => {
                let ghost before = r@.cuts;
                let end: usize = at + n as usize;
                r.cuts.push((at, end));
                proof {
                    assert(r@.cuts =~= before.push((at as nat, end as nat)));
                    assert(before + (seq![(at as nat, end as nat)] + cuts_from(
                        bytes@,
                        end as nat,
                    ).cuts) =~= r@.cuts + cuts_from(bytes@, end as nat).cuts);
                }
                at = end;
            },
            Err(e) => {
                let ghost before = r@.cuts;
                r.failure = Some((at, e));
                assert(r@.cuts =~= before);
                assert(r@ =~= cuts_from(bytes@, 0));
                return r;
            },
        }
    }
    assert(r@ =~= cuts_from(bytes@, 0));
    r
}

/// The descriptors of a file lie one right after the other, the first at `at`. The last one ends
/// where the reading failed.
pub proof fn law_descriptors_adjoin(bytes: Seq<u8>, at: nat)
    requires
        at <= bytes.len(),
    ensures
        ({
            let r = cuts_from(bytes, at);
            &&& forall|i: int|
                0 <= i < r.cuts.len() ==> (#[trigger] r.cuts[i]).0 < r.cuts[i].1 <= bytes.len()
            &&& forall|i: int, j: int|
                0 <= i && j == i + 1 && j < r.cuts.len() ==> (#[trigger] r.cuts[i]).1 == (
                #[trigger] r.cuts[j]).0
            &&& r.cuts.len() > 0 ==> r.cuts[0].0 == at
            &&& r.failure matches Some((k, _)) ==> k == (if r.cuts.len() == 0 {
                at
            } else {
                r.cuts.last().1
            })
        }),
    decreases bytes.len() - at,
{
    if at < bytes.len() {
        if let Ok(n) = descriptor_at(bytes.skip(at as int)) {
            if 0 < n <= bytes.len() - at {
                law_descriptors_adjoin(bytes, at + n);
                let rest = cuts_from(bytes, at + n);
                let r = cuts_from(bytes, at);
                assert(r.cuts =~= seq![(at, at + n)] + rest.cuts);
                assert forall|i: int| 0 <= i < r.cuts.len() implies (#[trigger] r.cuts[i]).0
                    < r.cuts[i].1 <= bytes.len() by {
                    if i > 0 {
                        assert(r.cuts[i] == rest.cuts[i - 1]);
                    }
                }
                assert forall|i: int, j: int|
                    0 <= i && j == i + 1 && j < r.cuts.len() implies (#[trigger] r.cuts[i]).1 == (
                #[trigger] r.cuts[j]).0 by {
                    assert(r.cuts[j] == rest.cuts[j - 1]);
                    if i > 0 {
                        assert(r.cuts[i] == rest.cuts[i - 1]);
                    }
                }
            }
        }
    }
}

/// What is said about a file of which not everything could be read.
pub fn aborted_message(path: &str, offset: usize, error: &str, recovered: usize) -> (r: Message)
    ensures
        r@ == logging::log(
            Level::Warn,
            "Aborting spendable file "@ + path@ + ": decode failed at offset "@ + text::decimal(
                offset as nat,
            ) + ": "@ + error@ + ". "@ + text::decimal(recovered as nat)
                + " descriptors recovered so far."@,
        ),
{
    let mut t = "Aborting spendable file ".to_owned();
    t.append(path);
    t.append(": decode failed at offset ");
    t.append(number(offset as u64).as_str());
    t.append(": ");
    t.append(error);
    t.append(". ");
    t.append(number(recovered as u64).as_str());
    t.append(" descriptors recovered so far.");
    log_warn(t)
}

/// The height from which on so many migrated outputs are spent, if there are any.
pub open spec fn spent_from(count: nat, height: nat) -> Option<u32> {
    if count > 0 {
        Some((height + 2) as u32)
    } else {
        None
    }
}

/// Migrated outputs are spent two blocks after the best one, however many they are; without any there is
/// no height.
pub proof fn law_migrated_outputs_wait_two_blocks(count: nat, height: nat)
    requires
        height + 2 <= u32::MAX,
    ensures
        spent_from(count, height) is Some <==> count > 0,
        spent_from(count, height) matches Some(from) ==> from == height + 2,
{
}

/// The height from which on the migrated outputs are spent. There is nothing to hand over if there
/// are none.
pub fn tracked_from(count: usize, height: u32) -> (r: Option<u32>)
    requires
        count > 0 ==> height + SPEND_DELAY_BLOCKS <= u32::MAX,
    ensures
        r == (if count > 0 {
            Some((height + SPEND_DELAY_BLOCKS) as u32)
        } else {
            None
        }),
        r == spent_from(count as nat, height as nat),
{
    if count > 0 {
        Some(height + SPEND_DELAY_BLOCKS)
    } else {
        None
    }
}

/// What is said once the outputs were handed over.
pub fn migrated_message(count: usize) -> (r: Message)
    ensures
        r@ == logging::log(
            Level::Info,
            "Successfully migrated "@ + text::decimal(count as nat)
                + " deprecated spendable outputs"@,
        ),
{
    let mut t = "Successfully migrated ".to_owned();
    t.append(number(count as u64).as_str());
    t.append(" deprecated spendable outputs");
    log_info(t)
}

/// What is said if the outputs could not be handed over. The node goes on.
pub fn migrate_deprecated_spendable_outputs(outcome: &Result<usize, SweepMigrationError>) -> (r:
    Option<Message>)
    ensures
        match *outcome {
            Ok(_) => r is None,
            Err(e) => r matches Some(m) && m@ == logging::log(
                Level::Error,
                "Deprecated spendable outputs migration failed: "@ + e.shown()
                    + ". On-disk state is preserved; node continues."@,
            ),
        },
{
    match outcome {
        Ok(_) => None,
        Err(e) => {
            let mut t = "Deprecated spendable outputs migration failed: ".to_owned();
            t.append(e.to_text().as_str());
            t.append(". On-disk state is preserved; node continues.");
            Some(log_error(t))
        },
    }
}

/// What is said if the file that marks the migration as done cannot be written.
pub fn unmarked_message(path: &str, error: &str) -> (r: Message)
    ensures
        r@ == logging::log(
            Level::Warn,
            "Failed to write migration sentinel "@ + path@ + ": "@ + error@
                + ". Migration will re-run on next startup."@,
        ),
{
    let mut t = "Failed to write migration sentinel ".to_owned();
    t.append(path);
    t.append(": ");
    t.append(error);
    t.append(". Migration will re-run on next startup.");
    log_warn(t)
}

/// What came of removing a directory.
pub enum Removal {
    /// It is gone.
    Removed,
    /// There was none.
    Missing,
    /// It is still there, for this reason.
    Failed(String),
}

/// What is said about a directory that should be gone.
pub fn best_effort_remove_dir(dir: &str, outcome: &Removal) -> (r: Option<Message>)
    ensures
        match *outcome {
            Removal::Failed(e) => r matches Some(m) && m@ == logging::log(
                Level::Warn,
                "Failed to remove directory "@ + dir@ + ": "@ + e@,
            ),
            _ => r is None,
        },
{
    match outcome {
        Removal::Failed(e) => {
            let mut t = "Failed to remove directory ".to_owned();
            t.append(dir);
            t.append(": ");
            t.append(e.as_str());
            Some(log_warn(t))
        },
        _ => None,
    }
}

/// Nothing is done about the older layout once it was migrated. Otherwise it is migrated exactly if one of
/// its directories is there, whichever it is, and only marked as done if none is.
pub proof fn law_older_layouts_are_migrated_once(layout: Layout)
    ensures
        layout.migrated <==> plan_of(layout) == Plan::Skip,
        plan_of(layout) == Plan::Migrate <==> !layout.migrated && (layout.pending
            || layout.processing || layout.spendable),
        plan_of(layout) == Plan::MarkDone <==> !layout.migrated && !layout.pending
            && !layout.processing && !layout.spendable,
{
}

/// The contents of files are kept one after the other: one more file is added at the end, whole.
pub proof fn law_files_are_joined_in_order(files: Seq<Vec<u8>>, next: Vec<u8>)
    ensures
        joined(Seq::<Vec<u8>>::empty()).len() == 0,
        joined(files.push(next)) == joined(files) + next@,
        joined(files.push(next)).len() == joined(files).len() + next@.len(),
{
    assert(files.push(next).drop_last() =~= files);
}

/// The descriptors of a file cover it from `at` on without a gap: if the reading does not fail, and every
/// descriptor has at least one byte and no more than there are, the last one ends at the end of the file;
/// each is where one can be read.
pub proof fn law_descriptors_cover_the_file(bytes: Seq<u8>, at: nat)
    requires
        at <= bytes.len(),
        forall|k: nat|
            k < bytes.len() ==> (#[trigger] descriptor_at(bytes.skip(k as int)) matches Ok(n) ==> 0
                < n <= bytes.len() - k),
    ensures
        ({
            let r = cuts_from(bytes, at);
            &&& r.failure is None ==> (if r.cuts.len() == 0 {
                at == bytes.len()
            } else {
                r.cuts.last().1 == bytes.len()
            })
            &&& r.failure matches Some((k, e)) ==> k < bytes.len() && descriptor_at(
                bytes.skip(k as int),
            ) == Err::<nat, Seq<char>>(e)
            &&& forall|i: int|
                0 <= i < r.cuts.len() ==> descriptor_at(
                    bytes.skip((#[trigger] r.cuts[i]).0 as int),
                ) == Ok::<nat, Seq<char>>((r.cuts[i].1 - r.cuts[i].0) as nat)
        }),
    decreases bytes.len() - at,
{
    if at < bytes.len() {
        if let Ok(n) = descriptor_at(bytes.skip(at as int)) {
            assert(0 < n <= bytes.len() - at);
            law_descriptors_cover_the_file(bytes, at + n);
            let rest = cuts_from(bytes, at + n);
            let r = cuts_from(bytes, at);
            assert forall|i: int| 0 <= i < r.cuts.len() implies descriptor_at(
                bytes.skip((#[trigger] r.cuts[i]).0 as int),
            ) == Ok::<nat, Seq<char>>((r.cuts[i].1 - r.cuts[i].0) as nat) by {
                if i > 0 {
                    assert(r.cuts[i] == rest.cuts[i - 1]);
                }
            }
            if rest.cuts.len() > 0 {
                assert(r.cuts.last() == rest.cuts.last());
            }
        }
    }
}

} // verus!
