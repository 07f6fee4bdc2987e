//! Messages to the terminal and the log file.
use vstd::prelude::*;

verus! {

/// How urgent a message is.
#[derive(Clone, Copy, Debug, PartialEq, Eq, Structural)]
pub enum Level {
    /// Gossip, which is not written down.
    Gossip,
    /// Very detailed.
    Trace,
    /// Detailed.
    Debug,
    /// Of interest.
    Info,
    /// Something may be wrong.
    Warn,
    /// Something is wrong.
    Error,
}

/// A message for the terminal, for the log file, or for both.
#[derive(Debug)]
pub struct Message {
    /// Whether it is shown on the terminal.
    pub shown: bool,
    /// Whether it is written to the log file.
    pub logged: bool,
    /// How urgent it is.
    pub level: Level,
    /// What it says.
    pub text: String,
}

/// A message, with its text as a sequence of characters.
pub struct MessageView {
    /// Whether it is shown on the terminal.
    pub shown: bool,
    /// Whether it is written to the log file.
    pub logged: bool,
    /// How urgent it is.
    pub level: Level,
    /// What it says.
    pub text: Seq<char>,
}

impl View for Message {
    type V = MessageView;

    open spec fn view(&self) -> MessageView {
        MessageView {
            shown: self.shown,
            logged: self.logged,
            level: self.level,
            text: self.text@,
        }
    }
}

/// A result for the user.
pub open spec fn out(text: Seq<char>) -> MessageView {
    MessageView { shown: true, logged: true, level: Level::Info, text }
}

/// A warning for the user.
pub open spec fn warn(text: Seq<char>) -> MessageView {
    MessageView { shown: true, logged: true, level: Level::Warn, text }
}

/// An error for the user.
pub open spec fn err(text: Seq<char>) -> MessageView {
    MessageView { shown: true, logged: true, level: Level::Error, text }
}

/// A message for the log file alone.
pub open spec fn log(level: Level, text: Seq<char>) -> MessageView {
    MessageView { shown: false, logged: true, level, text }
}

/// A line for the terminal alone.
pub open spec fn print(text: Seq<char>) -> MessageView {
    MessageView { shown: true, logged: false, level: Level::Info, text }
}

/// The messages, each as its view.
pub open spec fn message_views(s: Seq<Message>) -> Seq<MessageView> {
    Seq::new(s.len(), |i: int| s[i]@)
}

/// A result for the user.
pub fn user_out(text: String) -> (r: Message)
    ensures
        r@ == out(text@),
{
    Message { shown: true, logged: true, level: Level::Info, text }
}

/// A warning for the user.
pub fn user_warn(text: String) -> (r: Message)
    ensures
        r@ == warn(text@),
{
    Message { shown: true, logged: true, level: Level::Warn, text }
}

/// An error for the user.
pub fn user_err(text: String) -> (r: Message)
    ensures
        r@ == err(text@),
{
    Message { shown: true, logged: true, level: Level::Error, text }
}

/// A line for the terminal alone.
pub fn print_line(text: String) -> (r: Message)
    ensures
        r@ == print(text@),
{
    Message { shown: true, logged: false, level: Level::Info, text }
}

/// A detail, for the log file alone.
pub fn log_debug(text: String) -> (r: Message)
    ensures
        r@ == log(Level::Debug, text@),
{
    Message { shown: false, logged: true, level: Level::Debug, text }
}

/// Something of interest, for the log file alone.
pub fn log_info(text: String) -> (r: Message)
    ensures
        r@ == log(Level::Info, text@),
{
    Message { shown: false, logged: true, level: Level::Info, text }
}

/// A warning, for the log file alone.
pub fn log_warn(text: String) -> (r: Message)
    ensures
        r@ == log(Level::Warn, text@),
{
    Message { shown: false, logged: true, level: Level::Warn, text }
}

/// An error, for the log file alone.
pub fn log_error(text: String) -> (r: Message)
    ensures
        r@ == log(Level::Error, text@),
{
    Message { shown: false, logged: true, level: Level::Error, text }
}

/// What the terminal shows of a message. Errors stand apart from what was there before.
pub open spec fn terminal_line(m: MessageView) -> Option<Seq<char>> {
    if !m.shown {
        None
    } else if m.level == Level::Error {
        Some("\nERROR: "@ + m.text)
    } else if m.level == Level::Warn {
        Some("WARN: "@ + m.text)
    } else {
        Some(m.text)
    }
}

impl Message {
    /// The line that the terminal shows of the message, if it shows any.
    pub fn terminal_text(&self) -> (r: Option<String>)
        ensures
            match r {
                Some(t) => terminal_line(self@) == Some(t@),
                None => terminal_line(self@) is None,
            },
    {
        if !self.shown {
            return None;
        }
        match self.level {
            Level::Error => {
                let mut r = "\nERROR: ".to_owned();
                r.append(self.text.as_str());
                Some(r)
            },
            Level::Warn => {
                let mut r = "WARN: ".to_owned();
                r.append(self.text.as_str());
                Some(r)
            },
            _ => Some(self.text.clone()),
        }
    }
}

impl Level {
    /// The name of the level, in at least five columns.
    pub open spec fn column(self) -> Seq<char> {
        match self {
            Level::Gossip => "GOSSIP"@,
            Level::Trace => "TRACE"@,
            Level::Debug => "DEBUG"@,
            Level::Info => "INFO "@,
            Level::Warn => "WARN "@,
            Level::Error => "ERROR"@,
        }
    }

    /// The name of the level, in at least five columns.
    pub fn to_column(&self) -> (r: &'static str)
        ensures
            r@ == self.column(),
    {
        match self {
            Level::Gossip => "GOSSIP",
            Level::Trace => "TRACE",
            Level::Debug => "DEBUG",
            Level::Info => "INFO ",
            Level::Warn => "WARN ",
            Level::Error => "ERROR",
        }
    }
}

/// The terminal shows exactly the messages for it: results as they are, warnings and errors marked as
/// such, and nothing of what is for the log file alone. What is printed is not logged.
pub proof fn law_messages_reach_their_readers(text: Seq<char>, level: Level)
    ensures
        terminal_line(out(text)) == Some(text),
        terminal_line(print(text)) == Some(text),
        terminal_line(warn(text)) == Some("WARN: "@ + text),
        terminal_line(err(text)) == Some("\nERROR: "@ + text),
        terminal_line(log(level, text)) is None,
        out(text).logged && warn(text).logged && err(text).logged && log(level, text).logged,
        !print(text).logged,
        log(level, text).level == level,
        out(text).level == Level::Info && warn(text).level == Level::Warn && err(text).level
            == Level::Error,
{
}

/// The levels are told apart by their names, which all take at least five columns.
pub proof fn law_levels_are_told_apart(a: Level, b: Level)
    ensures
        a.column() == b.column() ==> a == b,
        a.column().len() >= 5,
        a != Level::Gossip ==> a.column().len() == 5,
{
    reveal_strlit("GOSSIP");
    reveal_strlit("TRACE");
    reveal_strlit("DEBUG");
    reveal_strlit("INFO ");
    reveal_strlit("WARN ");
    reveal_strlit("ERROR");
    assert("GOSSIP"@[0] == 'G' && "TRACE"@[0] == 'T' && "DEBUG"@[0] == 'D' && "INFO "@[0] == 'I'
        && "WARN "@[0] == 'W' && "ERROR"@[0] == 'E');
}

} // verus!
