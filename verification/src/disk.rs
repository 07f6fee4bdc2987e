//! Log files, and what is read from the data directory.
use crate::logging;
use crate::logging::{log_warn, Level, Message};
use crate::state;
use crate::state::{InboundPaymentInfoStorage, OutboundPaymentInfoStorage, PaymentInfo};
use crate::table;
use crate::table::Bytes32;
use crate::text;
use crate::text::{number, same};
use vstd::prelude::*;

verus! {

/// The file of the payments made to this node.
pub const INBOUND_PAYMENTS_FNAME: &'static str = "inbound_payments";

/// The file of the payments made by this node.
pub const OUTBOUND_PAYMENTS_FNAME: &'static str = "outbound_payments";

/// How the time of a log entry is written.
pub const ENTRY_TIME: &'static str = "%Y-%m-%d %H:%M:%S%.3f";

/// How the date in the name of a log file is written.
pub const FILE_DATE: &'static str = "%Y-%m-%d";

/// The text that chrono's `format` gives for `pattern` at a point in time, counted in seconds and
/// nanoseconds from the Unix epoch in UTC, if chrono can represent the time.
pub uninterp spec fn formatted_time(secs: i64, nanos: u32, pattern: Seq<char>) -> Option<Seq<char>>;

/// Calls `chrono::DateTime::from_timestamp` and, on the time, `format`. The result is the one that
/// `formatted_time` names.
#[verifier::external_body]
fn format_time(secs: i64, nanos: u32, pattern: &str) -> (r: Option<String>)
    requires
        pattern@ == ENTRY_TIME@ || pattern@ == FILE_DATE@,
    ensures
        match r {
            Some(t) => formatted_time(secs, nanos, pattern@) == Some(t@),
            None => formatted_time(secs, nanos, pattern@) is None,
        },
{
    match chrono::DateTime::from_timestamp(secs, nanos) {
        Some(t) => Some(t.format(pattern).to_string()),
        None => None,
    }
}

/// The path of the log file of a day.
pub open spec fn log_path(logs_dir: Seq<char>, date: Seq<char>) -> Seq<char> {
    logs_dir + "/logs-"@ + date + ".txt"@
}

/// The directory of the log files.
pub fn logs_dir(data_dir: &str) -> (r: String)
    ensures
        r@ == data_dir@ + "/logs"@,
{
    let mut r = data_dir.to_owned();
    r.append("/logs");
    r
}

/// The path of the log file of the day written as `date`.
pub fn log_file_path(logs_dir: &str, date: &str) -> (r: String)
    ensures
        r@ == log_path(logs_dir@, date@),
{
    let mut r = logs_dir.to_owned();
    r.append("/logs-");
    r.append(date);
    r.append(".txt");
    r
}

/// The day of a point in time, as it stands in the name of a log file.
pub fn log_date(secs: i64, nanos: u32) -> (r: Option<String>)
    ensures
        match r {
            Some(t) => formatted_time(secs, nanos, FILE_DATE@) == Some(t@),
            None => formatted_time(secs, nanos, FILE_DATE@) is None,
        },
{
    format_time(secs, nanos, FILE_DATE)
}

/// Whether `r` is the log file that is opened for an entry of today, if another one is than that of the
/// day of the open one.
pub open spec fn rotates(
    logs_dir: Seq<char>,
    current_date: Seq<char>,
    today: Seq<char>,
    r: Option<Seq<char>>,
) -> bool {
    if current_date == today {
        r is None
    } else {
        r == Some(log_path(logs_dir, today))
    }
}

/// An entry goes to the log file of its own day: the open one stays open for as long as the day lasts, and
/// the first entry of another day opens the file of that day.
pub proof fn law_entries_go_to_the_file_of_their_day(
    logs_dir: Seq<char>,
    current_date: Seq<char>,
    today: Seq<char>,
    r: Option<Seq<char>>,
)
    requires
        rotates(logs_dir, current_date, today, r),
    ensures
        (match r {
            Some(p) => p,
            None => log_path(logs_dir, current_date),
        }) == log_path(logs_dir, today),
        r is Some <==> current_date != today,
{
}

/// Which log file an entry of today goes to, given the day of the open one: another file if the day
/// has changed.
pub fn rotated_log_path(logs_dir: &str, current_date: &str, today: &str) -> (r: Option<String>)
    ensures
        match r {
            Some(p) => current_date@ != today@ && p@ == log_path(logs_dir@, today@),
            None => current_date@ == today@,
        },
        rotates(
            logs_dir@,
            current_date@,
            today@,
            match r {
                Some(p) => Some(p@),
                None => None,
            },
        ),
{
    if same(current_date, today) {
        None
    } else {
        Some(log_file_path(logs_dir, today))
    }
}

/// The text of a log entry written at the time `stamp`.
pub open spec fn entry_text(
    stamp: Seq<char>,
    level: Level,
    module: Seq<char>,
    line: nat,
    message: Seq<char>,
) -> Seq<char> {
    stamp + " "@ + level.column() + " ["@ + module + ":"@ + text::decimal(line) + "] "@ + message
        + "\n"@
}

/// The text of a log entry written at the time `stamp`.
pub fn log_entry_at(stamp: &str, level: Level, module: &str, line: u32, message: &str) -> (r:
    String)
    ensures
        r@ == entry_text(stamp@, level, module@, line as nat, message@),
{
    let mut r = stamp.to_owned();
    r.append(" ");
    r.append(level.to_column());
    r.append(" [");
    r.append(module);
    r.append(":");
    r.append(number(line as u64).as_str());
    r.append("] ");
    r.append(message);
    r.append("\n");
    r
}

/// The text of a log entry. Gossip gets none.
pub fn log_entry(
    secs: i64,
    nanos: u32,
    level: Level,
    module: &str,
    line: u32,
    message: &str,
) -> (r: Option<String>)
    ensures
        match (level, formatted_time(secs, nanos, ENTRY_TIME@)) {
            (Level::Gossip, _) => r is None,
            (_, None) => r is None,
            (_, Some(stamp)) => r matches Some(t) && t@ == entry_text(
                stamp,
                level,
                module@,
                line as nat,
                message@,
            ),
        },
{
    match level {
        Level::Gossip => None,
        _ => match format_time(secs, nanos, ENTRY_TIME) {
            Some(stamp) => Some(log_entry_at(stamp.as_str(), level, module, line, message)),
            None => None,
        },
    }
}

/// What came of opening a file.
pub enum FileSource {
    /// There is no such file.
    Missing,
    /// There is one, but it cannot be opened.
    Unopenable,
    /// Its bytes, as far as they can be read.
    Bytes(Vec<u8>),
}

/// The warning that something cannot be read, and what is done instead.
pub open spec fn unreadable(
    opened: bool,
    what: Seq<char>,
    path: Seq<char>,
    instead: Seq<char>,
) -> Seq<char> {
    (if opened {
        "Failed to deserialize "@ + what + " from "@
    } else {
        "Failed to open "@ + what + " at "@
    }) + path + ". Starting with "@ + instead + "."@
}

/// The warning that `what` cannot be read from `path`, and that the node starts with `instead`.
pub fn unreadable_warning(opened: bool, what: &str, path: &str, instead: &str) -> (r: Message)
    ensures
        r@ == logging::log(Level::Warn, unreadable(opened, what@, path@, instead@)),
{
    let mut t = if opened {
        let mut t = "Failed to deserialize ".to_owned();
        t.append(what);
        t.append(" from ");
        t
    } else {
        let mut t = "Failed to open ".to_owned();
        t.append(what);
        t.append(" at ");
        t
    };
    t.append(path);
    t.append(". Starting with ");
    t.append(instead);
    t.append(".");
    log_warn(t)
}

/// What becomes of a file of payments: the payments that it holds, or none and a warning.
pub open spec fn payments_read(
    source: FileSource,
    what: Seq<char>,
    path: Seq<char>,
    listed: Seq<(Bytes32, PaymentInfo)>,
    warning: Option<Message>,
) -> bool {
    match source {
        FileSource::Missing => listed.len() == 0 && warning is None,
        FileSource::Unopenable => {
            &&& listed.len() == 0
            &&& warning matches Some(m)
            &&& m@ == logging::log(Level::Warn, unreadable(false, what, path, "empty state"@))
        },
        FileSource::Bytes(b) => match state::storage_of(b@) {
            Some(es) => listed == es && warning is None,
            None => {
                &&& listed.len() == 0
                &&& warning matches Some(m)
                &&& m@ == logging::log(Level::Warn, unreadable(true, what, path, "empty state"@))
            },
        },
    }
}

/// The payments made to this node, as the file at `path` holds them.
pub fn read_inbound_payment_info(source: &FileSource, path: &str) -> (r: (
    InboundPaymentInfoStorage,
    Option<Message>,
))
    ensures
        r.0.payments.wf(),
        payments_read(*source, "inbound payment info"@, path@, r.0.payments.listed(), r.1),
{
    match source {
        FileSource::Missing => (InboundPaymentInfoStorage::new(), None),
        FileSource::Unopenable => (
            InboundPaymentInfoStorage::new(),
            Some(unreadable_warning(false, "inbound payment info", path, "empty state")),
        ),
        FileSource::Bytes(b) => match InboundPaymentInfoStorage::decode(b.as_slice()) {
            Some(info) => (info, None),
            None => (
                InboundPaymentInfoStorage::new(),
                Some(unreadable_warning(true, "inbound payment info", path, "empty state")),
            ),
        },
    }
}

/// The payments made by this node, as the file at `path` holds them.
pub fn read_outbound_payment_info(source: &FileSource, path: &str) -> (r: (
    OutboundPaymentInfoStorage,
    Option<Message>,
))
    ensures
        r.0.payments.wf(),
        payments_read(*source, "outbound payment info"@, path@, r.0.payments.listed(), r.1),
{
    match source {
        FileSource::Missing => (OutboundPaymentInfoStorage::new(), None),
        FileSource::Unopenable => (
            OutboundPaymentInfoStorage::new(),
            Some(unreadable_warning(false, "outbound payment info", path, "empty state")),
        ),
        FileSource::Bytes(b) => match OutboundPaymentInfoStorage::decode(b.as_slice()) {
            Some(info) => (info, None),
            None => (
                OutboundPaymentInfoStorage::new(),
                Some(unreadable_warning(true, "outbound payment info", path, "empty state")),
            ),
        },
    }
}

/// Payments are read as they are kept: what was written is read back, silently. A missing file holds none
/// and is no reason for a warning; one that cannot be opened or understood holds none and is.
pub proof fn law_kept_payments_are_read(
    source: FileSource,
    what: Seq<char>,
    path: Seq<char>,
    listed: Seq<(Bytes32, PaymentInfo)>,
    warning: Option<Message>,
    es: Seq<(Bytes32, PaymentInfo)>,
)
    requires
        payments_read(source, what, path, listed, warning),
    ensures
        source is Missing ==> listed.len() == 0 && warning is None,
        source is Unopenable ==> listed.len() == 0 && warning is Some,
        source matches FileSource::Bytes(b) ==> {
            &&& state::storage_of(b@) == Some(es) ==> listed == es && warning is None
            &&& state::storage_of(b@) is None ==> listed.len() == 0 && warning is Some
            &&& b@ == state::storage_bytes(es) && table::distinct_keys(es) && b@.len() <= u64::MAX
                ==> listed == es && warning is None
        },
        warning matches Some(m) ==> m@.level == Level::Warn && m@.logged && !m@.shown,
{
    if let FileSource::Bytes(b) = source {
        if b@ == state::storage_bytes(es) && table::distinct_keys(es) && b@.len() <= u64::MAX {
            state::law_storage_round_trip(es);
        }
    }
}

/// Each day has a log file of its own: two days never share one, in the same directory.
pub proof fn law_days_have_their_own_log_files(dir: Seq<char>, a: Seq<char>, b: Seq<char>)
    ensures
        log_path(dir, a) == log_path(dir, b) ==> a == b,
        dir.is_prefix_of(log_path(dir, a)),
{
    let head = dir + "/logs-"@;
    let pa = log_path(dir, a);
    let pb = log_path(dir, b);
    assert(pa.take(dir.len() as int) =~= dir);
    assert(pa.len() == head.len() + a.len() + ".txt"@.len());
    assert(pb.len() == head.len() + b.len() + ".txt"@.len());
    if pa == pb {
        assert(a =~= pa.subrange(head.len() as int, (head.len() + a.len()) as int));
        assert(b =~= pb.subrange(head.len() as int, (head.len() + b.len()) as int));
    }
}

/// A log entry begins with its time and ends with its message and the end of the line; the level stands
/// in between.
pub proof fn law_entries_hold_time_and_message(
    stamp: Seq<char>,
    level: Level,
    module: Seq<char>,
    line: nat,
    message: Seq<char>,
)
    ensures
        ({
            let e = entry_text(stamp, level, module, line, message);
            &&& (stamp + " "@ + level.column() + " ["@ + module + ":"@ + text::decimal(
                line,
            )).is_prefix_of(e)
            &&& ("] "@ + message + "\n"@).is_suffix_of(e)
        }),
{
    let e = entry_text(stamp, level, module, line, message);
    let head = stamp + " "@ + level.column() + " ["@ + module + ":"@ + text::decimal(line);
    let tail = "] "@ + message + "\n"@;
    assert(e =~= head + tail);
    assert(e.take(head.len() as int) =~= head);
    assert(e.skip(head.len() as int) =~= tail);
}

} // verus!
