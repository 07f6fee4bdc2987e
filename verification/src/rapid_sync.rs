//! Fetching the network graph from a server.
use crate::logging;
use crate::logging::{log_error, log_info, log_warn, Level, Message};
use crate::text;
use crate::text::{number, parse_number, trim, NumberError};
use vstd::prelude::*;

verus! {

/// How often a download is tried.
pub const MAX_RETRIES: u32 = 3;

/// The rest after the first failed download, in milliseconds.
pub const INITIAL_BACKOFF_MS: u64 = 1000;

/// The longest rest after a failed download, in milliseconds.
pub const MAX_BACKOFF_MS: u64 = 60000;

/// How many seconds a download may take.
pub const DOWNLOAD_TIMEOUT_SECS: u64 = 300;

/// The usual server.
pub const DEFAULT_RAPID_SYNC_URL: &'static str =
    "https://rapidsync.lightningdevkit.org/snapshot/";

/// Why the network graph was not fetched.
#[derive(Debug)]
pub enum RapidSyncError {
    /// The download failed.
    DownloadFailed(String),
    /// The snapshot cannot be applied.
    ParseFailed(String),
    /// A file cannot be read or written.
    IoError(String),
    /// Every attempt failed.
    RetryExhausted,
}

impl RapidSyncError {
    /// The reason as it is shown.
    pub open spec fn shown(self) -> Seq<char> {
        match self {
            RapidSyncError::DownloadFailed(m) => "download failed: "@ + m@,
            RapidSyncError::ParseFailed(m) => "parse failed: "@ + m@,
            RapidSyncError::IoError(m) => "I/O error: "@ + m@,
            RapidSyncError::RetryExhausted => "retry attempts exhausted"@,
        }
    }

    /// The reason as text.
    pub fn to_text(&self) -> (r: String)
        ensures
            r@ == self.shown(),
    {
        match self {
            RapidSyncError::DownloadFailed(m) => {
                let mut t = "download failed: ".to_owned();
                t.append(m.as_str());
                t
            },
            RapidSyncError::ParseFailed(m) => {
                let mut t = "parse failed: ".to_owned();
                t.append(m.as_str());
                t
            },
            RapidSyncError::IoError(m) => {
                let mut t = "I/O error: ".to_owned();
                t.append(m.as_str());
                t
            },
            RapidSyncError::RetryExhausted => "retry attempts exhausted".to_owned(),
        }
    }
}

/// The server to fetch from: the configured one, or else the usual one.
pub fn choose_sync_url(sync_url: Option<String>) -> (r: String)
    ensures
        r@ == (match sync_url {
            Some(u) => u@,
            None => DEFAULT_RAPID_SYNC_URL@,
        }),
{
    match sync_url {
        Some(u) => u,
        None => DEFAULT_RAPID_SYNC_URL.to_owned(),
    }
}

/// Where the changes since `last_sync` are fetched from.
pub fn snapshot_url(sync_url: &str, last_sync: u32) -> (r: String)
    ensures
        r@ == sync_url@ + text::decimal(last_sync as nat),
{
    let mut t = sync_url.to_owned();
    t.append(number(last_sync as u64).as_str());
    t
}

/// The error for an answer whose status, as text and as a number, is not a success.
pub fn bad_status_error(status: &str, code: &str) -> (r: RapidSyncError)
    ensures
        r matches RapidSyncError::DownloadFailed(m) && m@ == "HTTP "@ + status@ + " - "@ + code@,
{
    let mut t = "HTTP ".to_owned();
    t.append(status);
    t.append(" - ");
    t.append(code);
    RapidSyncError::DownloadFailed(t)
}

/// A download that is tried again when it fails.
#[derive(Clone, Copy, Debug, PartialEq, Eq)]
pub struct Download {
    retry_count: u32,
    backoff_ms: u64,
}

/// What is done after a failed download.
#[derive(Clone, Copy, Debug, PartialEq, Eq, Structural)]
pub enum RetryStep {
    /// Try again after so many milliseconds.
    Wait(u64),
    /// Give up.
    GiveUp,
}

/// The rest after so many failures, in milliseconds: twice as long each time, up to a limit.
pub open spec fn backoff_after(failures: nat) -> nat
    decreases failures,
{
    if failures == 0 {
        INITIAL_BACKOFF_MS as nat
    } else if backoff_after((failures - 1) as nat) * 2 > MAX_BACKOFF_MS {
        MAX_BACKOFF_MS as nat
    } else {
        backoff_after((failures - 1) as nat) * 2
    }
}

/// What is said of a failure `e`, the last of so many.
pub open spec fn failure_message(failures: nat, e: RapidSyncError) -> logging::MessageView {
    if failures >= MAX_RETRIES {
        logging::log(
            Level::Error,
            "Rapid gossip sync download failed after "@ + text::decimal(MAX_RETRIES as nat)
                + " attempts"@,
        )
    } else {
        logging::log(
            Level::Warn,
            "Rapid gossip sync download failed (attempt "@ + text::decimal(failures) + "/"@
                + text::decimal(MAX_RETRIES as nat) + "): "@ + e.shown() + ". Retrying in "@
                + text::decimal(backoff_after((failures - 1) as nat)) + "ms..."@,
        )
    }
}

impl Download {
    /// How often the download has failed.
    pub closed spec fn failures(&self) -> nat {
        self.retry_count as nat
    }

    /// The rest is the one that follows from the number of failures.
    pub closed spec fn wf(&self) -> bool {
        self.retry_count <= MAX_RETRIES && self.backoff_ms == backoff_after(
            self.retry_count as nat,
        ) && self.backoff_ms <= MAX_BACKOFF_MS
    }

    /// A download that has not been tried yet.
    pub fn new() -> (r: Download)
        ensures
            r.wf(),
            r.failures() == 0,
    {
        Download { retry_count: 0, backoff_ms: INITIAL_BACKOFF_MS }
    }

    /// Goes on after the download failed with `e`, and says what is done and said about it.
    pub fn failed(&mut self, e: &RapidSyncError) -> (r: (RetryStep, Message))
        requires
            old(self).wf(),
            old(self).failures() < MAX_RETRIES,
        ensures
            final(self).wf(),
            final(self).failures() == old(self).failures() + 1,
            r.1@ == failure_message(final(self).failures(), *e),
            r.0 == (if final(self).failures() >= MAX_RETRIES {
                RetryStep::GiveUp
            } else {
                RetryStep::Wait(backoff_after(old(self).failures()) as u64)
            }),
    {
        let wait: u64 = self.backoff_ms;
        self.retry_count = self.retry_count + 1;
        self.backoff_ms = if wait * 2 > MAX_BACKOFF_MS {
            MAX_BACKOFF_MS
        } else {
            wait * 2
        };
        if self.retry_count >= MAX_RETRIES {
            let mut t = "Rapid gossip sync download failed after ".to_owned();
            t.append(number(MAX_RETRIES as u64).as_str());
            t.append(" attempts");
            (RetryStep::GiveUp, log_error(t))
        } else {
            let mut t = "Rapid gossip sync download failed (attempt ".to_owned();
            t.append(number(self.retry_count as u64).as_str());
            t.append("/");
            t.append(number(MAX_RETRIES as u64).as_str());
            t.append("): ");
            t.append(e.to_text().as_str());
            t.append(". Retrying in ");
            t.append(number(wait).as_str());
            t.append("ms...");
            (RetryStep::Wait(wait), log_warn(t))
        }
    }
}

/// How long to rest after a failed download, in milliseconds, or the error that the download ends
/// with: that the attempts are exhausted.
pub fn rest_or_error(step: RetryStep) -> (r: Result<u64, RapidSyncError>)
    ensures
        match step {
            RetryStep::Wait(ms) => r == Ok::<u64, RapidSyncError>(ms),
            RetryStep::GiveUp => r == Err::<u64, RapidSyncError>(RapidSyncError::RetryExhausted),
        },
{
    match step {
        RetryStep::Wait(ms) => Ok(ms),
        RetryStep::GiveUp => Err(RapidSyncError::RetryExhausted),
    }
}

/// What an attempt gave: the snapshot, or why there is none.
pub type Attempt = Result<Vec<u8>, RapidSyncError>;

/// What is done after an attempt.
#[derive(Debug)]
pub enum AttemptStep {
    /// The download is over, with this result.
    Done(Attempt),
    /// Try again after so many milliseconds.
    Again(u64),
}

impl Download {
    /// Goes on after an attempt, and says what is done and said about it. The first snapshot ends the
    /// download. So does the last failure: the result is then that the attempts are exhausted,
    /// whatever the attempts failed with.
    pub fn attempted(&mut self, outcome: Attempt) -> (r: (AttemptStep, Option<Message>))
        requires
            old(self).wf(),
            old(self).failures() < MAX_RETRIES,
        ensures
            final(self).wf(),
            match outcome {
                Ok(data) => {
                    &&& r.0 == AttemptStep::Done(Ok(data))
                    &&& r.1 is None
                    &&& final(self).failures() == old(self).failures()
                },
                Err(e) => {
                    &&& final(self).failures() == old(self).failures() + 1
                    &&& r.1 matches Some(m) && m@ == failure_message(final(self).failures(), e)
                    &&& if final(self).failures() >= MAX_RETRIES {
                        r.0 == AttemptStep::Done(Err(RapidSyncError::RetryExhausted))
                    } else {
                        r.0 == AttemptStep::Again(backoff_after(old(self).failures()) as u64)
                    }
                },
            },
    {
        match outcome {
            Ok(data) => (AttemptStep::Done(Ok(data)), None),
            Err(e) => {
                let (step, message) = self.failed(&e);
                match rest_or_error(step) {
                    Ok(ms) => (AttemptStep::Again(ms), Some(message)),
                    Err(last) => (AttemptStep::Done(Err(last)), Some(message)),
                }
            },
        }
    }
}

/// How many attempts fail before the first that does not.
pub open spec fn failed_first(outcomes: Seq<Attempt>) -> nat
    decreases outcomes.len(),
{
    if outcomes.len() == 0 || outcomes[0] is Ok {
        0
    } else {
        1 + failed_first(outcomes.skip(1))
    }
}

/// How many attempts are made: up to the first snapshot, and no more than allowed.
pub open spec fn attempts_made(outcomes: Seq<Attempt>) -> nat {
    if failed_first(outcomes) < MAX_RETRIES {
        failed_first(outcomes) + 1
    } else {
        MAX_RETRIES as nat
    }
}

/// What a download gives whose attempts give `outcomes`: the first snapshot, or, if every allowed
/// attempt fails, that they are exhausted.
pub open spec fn download_result(outcomes: Seq<Attempt>) -> Attempt {
    if failed_first(outcomes) < MAX_RETRIES {
        outcomes[failed_first(outcomes) as int]
    } else {
        Err(RapidSyncError::RetryExhausted)
    }
}

/// The rests between so many attempts, in milliseconds.
pub open spec fn rests(attempts: nat) -> Seq<u64> {
    Seq::new((attempts - 1) as nat, |i: int| backoff_after(i as nat) as u64)
}

/// What a download gives, and the rests that are taken in it, in milliseconds. `outcomes` are what
/// its attempts give, one after the other; there are as many as allowed, or a snapshot among them.
pub fn download_with_retry(outcomes: Vec<Attempt>) -> (r: (Attempt, Vec<u64>))
    requires
        attempts_made(outcomes@) <= outcomes@.len(),
    ensures
        r.0 == download_result(outcomes@),
        r.1@ == rests(attempts_made(outcomes@)),
{
    let mut left = outcomes;
    let mut download = Download::new();
    let mut waits: Vec<u64> = Vec::new();
    let ghost mut i: nat = 0;
    assert(outcomes@.skip(0) == outcomes@);
    loop
        invariant
            download.wf(),
            download.failures() == i,
            i < MAX_RETRIES,
            left@ == outcomes@.skip(i as int),
            i < attempts_made(outcomes@) <= outcomes@.len(),
            failed_first(outcomes@) == i + failed_first(left@),
            waits@ == rests(i + 1),
        decreases MAX_RETRIES - i,
    {
        assert(left@[0] == outcomes@[i as int]);
        let outcome = left.remove(0);
        assert(left@ =~= outcomes@.skip(i as int + 1));
        assert(left@ =~= outcomes@.skip(i as int).skip(1));
        let (step, _) = download.attempted(outcome);
        match step {
            AttemptStep::Done(result) => {
                return (result, waits);
            },
            AttemptStep::Again(ms) => {
                waits.push(ms);
                proof {
                    i = i + 1;
                    assert(waits@ =~= rests(i + 1));
                }
            },
        }
    }
}

/// At most as many attempts are made as allowed. None is made after the first that gives a snapshot,
/// which is the result; if all of them fail, the result is that they are exhausted, and no other
/// failure gives that result.
pub proof fn law_first_snapshot_is_the_result(outcomes: Seq<Attempt>)
    requires
        attempts_made(outcomes) <= outcomes.len(),
    ensures
        1 <= attempts_made(outcomes) <= MAX_RETRIES,
        forall|i: int| 0 <= i < attempts_made(outcomes) - 1 ==> #[trigger] outcomes[i] is Err,
        download_result(outcomes) is Ok ==> download_result(outcomes)
            == outcomes[attempts_made(outcomes) - 1],
        download_result(outcomes) is Err ==> download_result(outcomes)
            == Err::<Vec<u8>, RapidSyncError>(RapidSyncError::RetryExhausted),
        download_result(outcomes) is Err <==> outcomes.len() >= MAX_RETRIES && forall|i: int|
            0 <= i < MAX_RETRIES ==> #[trigger] outcomes[i] is Err,
{
    lemma_failed_first(outcomes);
}

/// The first rest is a second, the second is two, and there is none after the last attempt.
pub proof fn law_rests_between_attempts(outcomes: Seq<Attempt>)
    ensures
        rests(attempts_made(outcomes)) == seq![1000u64, 2000u64].take(
            attempts_made(outcomes) - 1,
        ),
        failed_first(outcomes) >= MAX_RETRIES ==> rests(attempts_made(outcomes))
            == seq![1000u64, 2000u64],
{
    reveal_with_fuel(backoff_after, 3);
    let n = attempts_made(outcomes);
    assert(rests(n) =~= seq![1000u64, 2000u64].take(n - 1));
    assert(seq![1000u64, 2000u64].take(2) =~= seq![1000u64, 2000u64]);
}

proof fn lemma_failed_first(outcomes: Seq<Attempt>)
    ensures
        failed_first(outcomes) <= outcomes.len(),
        forall|i: int| 0 <= i < failed_first(outcomes) ==> #[trigger] outcomes[i] is Err,
        failed_first(outcomes) < outcomes.len() ==> outcomes[failed_first(outcomes) as int] is Ok,
    decreases outcomes.len(),
{
    if outcomes.len() > 0 && outcomes[0] is Err {
        lemma_failed_first(outcomes.skip(1));
        assert forall|i: int| 0 <= i < failed_first(outcomes) implies #[trigger] outcomes[i] is Err by {
            if i > 0 {
                assert(outcomes.skip(1)[i - 1] == outcomes[i]);
            }
        }
    }
}

/// The rest between two attempts starts at the initial one, never gets shorter, and never exceeds
/// the limit.
pub proof fn law_backoff_is_bounded(failures: nat)
    ensures
        INITIAL_BACKOFF_MS <= backoff_after(failures) <= MAX_BACKOFF_MS,
        backoff_after(failures) <= backoff_after(failures + 1),
    decreases failures,
{
    if failures > 0 {
        law_backoff_is_bounded((failures - 1) as nat);
    }
}

/// How far a download has got, and when that is said next.
#[derive(Clone, Copy, Debug, PartialEq, Eq)]
pub struct Progress {
    /// The length that the server announced, or 0.
    pub content_length: u64,
    /// How much has come.
    pub downloaded: u64,
    /// The least amount at which the progress is said next.
    pub next_threshold: u64,
}

/// After how many bytes the progress is said again: about ten times in all, and never if the length
/// is not known.
pub open spec fn progress_step(content_length: u64) -> u64 {
    if content_length == 0 {
        u64::MAX
    } else if content_length / 10 == 0 {
        1
    } else {
        content_length / 10
    }
}

impl Progress {
    fn step(&self) -> (r: u64)
        ensures
            r == progress_step(self.content_length),
    {
        if self.content_length == 0 {
            u64::MAX
        } else if self.content_length / 10 == 0 {
            1
        } else {
            self.content_length / 10
        }
    }

    /// A download that has just begun.
    pub fn new(content_length: Option<u64>) -> (r: Progress)
        ensures
            r.content_length == (match content_length {
                Some(n) => n,
                None => 0,
            }),
            r.downloaded == 0,
            r.next_threshold == progress_step(r.content_length),
    {
        let mut r = Progress {
            content_length: match content_length {
                Some(n) => n,
                None => 0,
            },
            downloaded: 0,
            next_threshold: 0,
        };
        r.next_threshold = r.step();
        r
    }

    /// Counts a chunk of `len` bytes. The result says whether the progress is to be said.
    pub fn chunk(&mut self, len: u64) -> (r: bool)
        requires
            old(self).downloaded + len <= u64::MAX,
        ensures
            final(self).content_length == old(self).content_length,
            final(self).downloaded == old(self).downloaded + len,
            r == (old(self).content_length > 0 && final(self).downloaded >= old(
                self,
            ).next_threshold),
            final(self).next_threshold == (if !r {
                old(self).next_threshold as int
            } else if old(self).next_threshold + progress_step(old(self).content_length)
                <= u64::MAX {
                old(self).next_threshold + progress_step(old(self).content_length)
            } else {
                u64::MAX as int
            }),
    {
        self.downloaded = self.downloaded + len;
        if self.content_length > 0 && self.downloaded >= self.next_threshold {
            self.next_threshold = self.next_threshold.saturating_add(self.step());
            true
        } else {
            false
        }
    }
}

/// The file that holds the time of the last snapshot.
pub fn timestamp_path(ldk_data_dir: &str) -> (r: String)
    ensures
        r@ == ldk_data_dir@ + "/rapid_sync_state"@,
{
    let mut t = ldk_data_dir.to_owned();
    t.append("/rapid_sync_state");
    t
}

/// What came of reading the file that holds the time of the last snapshot.
pub enum TimestampSource {
    /// There is none.
    Missing,
    /// It cannot be read, for this reason.
    Unreadable(String),
    /// It holds this text.
    Text(String),
}

/// The time that a text holds: a number, with whitespace around it.
pub open spec fn timestamp_of(s: Seq<char>) -> Result<nat, NumberError> {
    text::number_of(text::trimmed(s), u32::MAX as nat)
}

/// The time of the last snapshot: 0 if there was none.
pub fn load_last_sync_timestamp(source: &TimestampSource) -> (r: Result<u32, String>)
    ensures
        match *source {
            TimestampSource::Missing => r == Ok::<u32, String>(0),
            TimestampSource::Unreadable(e) => r matches Err(m) && m@ == e@,
            TimestampSource::Text(t) => match timestamp_of(t@) {
                Ok(n) => r matches Ok(m) && m == n,
                Err(e) => r matches Err(m) && m@ == e.message(),
            },
        },
{
    match source {
        TimestampSource::Missing => Ok(0),
        TimestampSource::Unreadable(e) => Err(e.clone()),
        TimestampSource::Text(t) => {
            let trimmed = trim(t.as_str());
            match parse_number(trimmed, u32::MAX as u64) {
                Ok(n) => {
                    proof {
                        text::lemma_number_bound(trimmed@, u32::MAX as nat);
                    }
                    Ok(n as u32)
                },
                Err(e) => Err(e.to_text()),
            }
        },
    }
}

/// The text that keeps the time of a snapshot.
pub fn timestamp_text(timestamp: u32) -> (r: String)
    ensures
        r@ == text::decimal(timestamp as nat),
{
    number(timestamp as u64)
}

/// The time of a snapshot that was written down is the one that is read again.
pub proof fn law_timestamp_round_trip(timestamp: u32)
    ensures
        timestamp_of(text::decimal(timestamp as nat)) == Ok::<nat, NumberError>(timestamp as nat),
{
    let s = text::decimal(timestamp as nat);
    text::lemma_decimal_digits(timestamp as nat);
    assert(text::is_digit(s[0]));
    assert(text::is_digit(s[s.len() - 1]));
    assert(text::trimmed(s) == s);
    text::law_decimal_round_trip(timestamp as nat, u32::MAX as nat);
}

/// Where a synchronisation stands.
#[derive(Clone, Copy, Debug, PartialEq, Eq, Structural)]
pub enum Syncing {
    /// Fetch the changes since this time.
    Download { last_sync: u32 },
    /// Apply the snapshot that was fetched.
    Apply,
    /// Write down the time of the snapshot.
    Save { timestamp: u32 },
}

/// The time from which on changes are fetched, where the file that holds the time has this text, if it
/// could be read.
pub open spec fn synced_until(text: Option<Seq<char>>) -> nat {
    match text {
        Some(t) => match timestamp_of(t) {
            Ok(n) => n,
            Err(_) => 0,
        },
        None => 0,
    }
}

/// The changes since the last snapshot are fetched, as its time was written down, whatever whitespace
/// follows; without a time that can be read, all of them are.
pub proof fn law_synchronisation_goes_on_where_it_stopped(timestamp: u32, t: Seq<char>)
    ensures
        synced_until(Some(text::decimal(timestamp as nat))) == timestamp,
        synced_until(Some(text::decimal(timestamp as nat).push('\n'))) == timestamp,
        synced_until(None) == 0,
        timestamp_of(t) is Err ==> synced_until(Some(t)) == 0,
        synced_until(Some(t)) <= u32::MAX,
{
    law_timestamp_round_trip(timestamp);
    text::law_visible_characters_are_no_whitespace('\n');
    text::law_trimming_takes_whitespace_off(text::decimal(timestamp as nat), '\n');
    text::lemma_number_bound(text::trimmed(t), u32::MAX as nat);
}

/// Begins a synchronisation: from the time of the last snapshot, or from the beginning if that is
/// not known. The message says so.
pub fn sync_network_graph(source: &TimestampSource) -> (r: (Syncing, Message))
    ensures
        ({
            let last = match *source {
                TimestampSource::Text(t) => match timestamp_of(t@) {
                    Ok(n) => n,
                    Err(_) => 0,
                },
                _ => 0,
            };
            &&& r.0 == (Syncing::Download { last_sync: last as u32 })
            &&& r.1@ == logging::log(
                Level::Info,
                "Starting rapid gossip sync from timestamp: "@ + text::decimal(last),
            )
        }),
        r.0 == (Syncing::Download {
            last_sync: synced_until(
                match *source {
                    TimestampSource::Text(t) => Some(t@),
                    _ => None,
                },
            ) as u32,
        }),
{
    let last_sync: u32 = match load_last_sync_timestamp(source) {
        Ok(n) => n,
        Err(_) => 0,
    };
    let mut t = "Starting rapid gossip sync from timestamp: ".to_owned();
    t.append(number(last_sync as u64).as_str());
    (Syncing::Download { last_sync }, log_info(t))
}

/// What a synchronisation has done last.
pub enum SyncedSoFar {
    /// It has fetched the snapshot, or has failed to.
    Downloaded(bool),
    /// It has applied the snapshot, which is of this time, or has failed to.
    Applied(Option<u32>),
}

/// Whether a synchronisation goes on with `next`, or ends with an error if there is none, after `done`.
pub open spec fn goes_to(next: Option<Syncing>, done: SyncedSoFar) -> bool {
    match done {
        SyncedSoFar::Downloaded(ok) => next == (if ok {
            Some(Syncing::Apply)
        } else {
            None
        }),
        SyncedSoFar::Applied(timestamp) => next == (match timestamp {
            Some(timestamp) => Some(Syncing::Save { timestamp }),
            None => None,
        }),
    }
}

/// A snapshot is applied only once it was fetched, and the time that is written down is that of the
/// snapshot that was applied: nothing is written down if it was not.
pub proof fn law_applied_snapshots_are_remembered(
    next: Option<Syncing>,
    ok: bool,
    after: Option<Syncing>,
    timestamp: Option<u32>,
)
    requires
        goes_to(next, SyncedSoFar::Downloaded(ok)),
        goes_to(after, SyncedSoFar::Applied(timestamp)),
    ensures
        next == Some(Syncing::Apply) <==> ok,
        next is None <==> !ok,
        after is None <==> timestamp is None,
        timestamp matches Some(t) ==> after == Some(Syncing::Save { timestamp: t }),
{
}

/// Goes on once the snapshot was fetched, with so many bytes, or could not be.
pub fn sync_downloaded(outcome: Result<usize, RapidSyncError>) -> (r: Result<
    (Syncing, Message),
    RapidSyncError,
>)
    ensures
        match outcome {
            Err(e) => r == Err::<(Syncing, Message), RapidSyncError>(e),
            Ok(n) => r matches Ok((step, m)) && step == Syncing::Apply && m@ == logging::log(
                Level::Info,
                "Downloaded snapshot of "@ + text::decimal(n as nat)
                    + " bytes, applying to network graph..."@,
            ),
        },
        goes_to(
            match r {
                Ok((step, _)) => Some(step),
                Err(_) => None,
            },
            SyncedSoFar::Downloaded(outcome is Ok),
        ),
{
    match outcome {
        Err(e) => Err(e),
        Ok(n) => {
            let mut t = "Downloaded snapshot of ".to_owned();
            t.append(number(n as u64).as_str());
            t.append(" bytes, applying to network graph...");
            Ok((Syncing::Apply, log_info(t)))
        },
    }
}

/// Goes on once the snapshot was applied, or could not be for the reason in the text.
pub fn sync_applied(outcome: Result<u32, String>) -> (r: Result<Syncing, RapidSyncError>)
    ensures
        match outcome {
            Err(e) => r matches Err(RapidSyncError::ParseFailed(m)) && m == e,
            Ok(timestamp) => r == Ok::<Syncing, RapidSyncError>(Syncing::Save { timestamp }),
        },
        goes_to(
            match r {
                Ok(step) => Some(step),
                Err(_) => None,
            },
            SyncedSoFar::Applied(
                match outcome {
                    Ok(timestamp) => Some(timestamp),
                    Err(_) => None,
                },
            ),
        ),
{
    match outcome {
        Err(e) => Err(RapidSyncError::ParseFailed(e)),
        Ok(timestamp) => Ok(Syncing::Save { timestamp }),
    }
}

/// Ends a synchronisation once the time was written down, or could not be for the reason in the
/// text.
pub fn sync_saved(timestamp: u32, outcome: Result<(), String>) -> (r: Result<
    (u32, Message),
    RapidSyncError,
>)
    ensures
        match outcome {
            Err(e) => r matches Err(RapidSyncError::IoError(m)) && m == e,
            Ok(()) => r matches Ok((ts, m)) && ts == timestamp && m@ == logging::log(
                Level::Info,
                "Rapid gossip sync completed. New timestamp: "@ + text::decimal(timestamp as nat),
            ),
        },
{
    match outcome {
        Err(e) => Err(RapidSyncError::IoError(e)),
        Ok(()) => {
            let mut t = "Rapid gossip sync completed. New timestamp: ".to_owned();
            t.append(number(timestamp as u64).as_str());
            Ok((timestamp, log_info(t)))
        },
    }
}

/// Progress is said after each tenth of a download whose length is known, or after each byte if it is
/// shorter than ten bytes: ten such steps never exceed the length of a longer one.
pub proof fn law_progress_is_said_in_tenths(content_length: u64)
    ensures
        content_length >= 10 ==> progress_step(content_length) * 10 <= content_length,
        content_length >= 10 ==> progress_step(content_length) == content_length / 10,
        0 < content_length < 10 ==> progress_step(content_length) == 1,
        content_length == 0 ==> progress_step(content_length) == u64::MAX,
{
}

} // verus!
