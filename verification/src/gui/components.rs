//! The pieces of the window that keep state: the log.
use std::collections::VecDeque;
use vstd::prelude::*;

verus! {

/// The most entries that the log keeps.
pub const MAX_LOG_LINES: usize = 1000;

/// How an entry of the log is shown.
#[derive(Debug, Clone, Copy, PartialEq, Eq)]
pub enum LogLevel {
    Info,
    Warning,
    Error,
    Success,
}

/// An entry of the log.
#[derive(Debug, Clone)]
pub struct LogEntry {
    pub level: LogLevel,
    pub message: String,
    /// The local time of day the entry was made, as `HH:MM:SS`.
    pub timestamp: String,
}

/// `HH:MM:SS` text: two ASCII digits, a colon, two digits, a colon, two
/// digits.
pub open spec fn time_of_day_text(t: Seq<char>) -> bool {
    &&& t.len() == 8
    &&& t[2] == ':'
    &&& t[5] == ':'
    &&& forall|i: int|
        0 <= i < 8 && i != 2 && i != 5 ==> '0' <= #[trigger] t[i] && t[i] <= '9'
}

/// The local time of day now (`chrono::Local::now()` formatted with
/// `%H:%M:%S`). chrono documents `%H`, `%M` and `%S` as numbers padded with
/// zeros to two digits, so the text has the `HH:MM:SS` shape; which time it
/// shows depends on the clock and the time zone and is not stated.
#[verifier::external_body]
fn local_time_of_day() -> (t: String)
    ensures
        time_of_day_text(t@),
{
    chrono::Local::now().format("%H:%M:%S").to_string()
}

/// The log of the window: the newest entries, at most `MAX_LOG_LINES`.
pub struct LogBox {
    entries: VecDeque<LogEntry>,
    scroll_to_bottom: bool,
    auto_scroll: bool,
}

/// `entries` after adding `e` to a log that keeps at most `max`: the oldest
/// entry goes when the log is full.
pub open spec fn log_after_add(entries: Seq<LogEntry>, e: LogEntry, max: nat) -> Seq<LogEntry> {
    if entries.len() >= max {
        entries.drop_first().push(e)
    } else {
        entries.push(e)
    }
}

impl LogBox {
    #[verifier::type_invariant]
    closed spec fn bounded(self) -> bool {
        self.entries@.len() <= MAX_LOG_LINES
    }

    /// The entries, oldest first.
    pub closed spec fn lines(&self) -> Seq<LogEntry> {
        self.entries@
    }

    /// Whether the view should scroll to the newest entry.
    pub closed spec fn scroll_pending(&self) -> bool {
        self.scroll_to_bottom
    }

    /// Whether adding an entry scrolls to it.
    pub closed spec fn follows(&self) -> bool {
        self.auto_scroll
    }

    /// An empty log that follows new entries.
    pub fn new() -> (l: Self)
        ensures
            l.lines() == Seq::<LogEntry>::empty(),
            l.scroll_pending(),
            l.follows(),
    {
        LogBox {
            entries: VecDeque::with_capacity(MAX_LOG_LINES),
            scroll_to_bottom: true,
            auto_scroll: true,
        }
    }

    /// Adds an entry with the given level and message, stamped with the
    /// time of day; the oldest entry goes when the log is full.
    pub fn add(&mut self, level: LogLevel, message: String)
        ensures
            final(self).lines().len() <= MAX_LOG_LINES,
            final(self).lines().len() > 0,
            final(self).lines().last().level == level,
            final(self).lines().last().message == message,
            time_of_day_text(final(self).lines().last().timestamp@),
            final(self).lines() == log_after_add(
                old(self).lines(),
                final(self).lines().last(),
                MAX_LOG_LINES as nat,
            ),
            final(self).scroll_pending() == (old(self).scroll_pending() || old(self).follows()),
            final(self).follows() == old(self).follows(),
    {
        proof {
            use_type_invariant(&*self);
        }
        let entry = LogEntry { level, message, timestamp: local_time_of_day() };
        let ghost e = entry;
        let mut entries: VecDeque<LogEntry> = VecDeque::new();
        std::mem::swap(&mut entries, &mut self.entries);
        let ghost before = entries@;
        if entries.len() >= MAX_LOG_LINES {
            entries.pop_front();
        }
        entries.push_back(entry);
        proof {
            assert(entries@ =~= log_after_add(before, e, MAX_LOG_LINES as nat));
            assert(entries@.last() == e);
        }
        self.entries = entries;
        if self.auto_scroll {
            self.scroll_to_bottom = true;
        }
    }

    /// Adds an information entry.
    pub fn info(&mut self, message: String)
        ensures
            final(self).lines().len() > 0,
            final(self).lines().last().level == LogLevel::Info,
            final(self).lines().last().message == message,
            time_of_day_text(final(self).lines().last().timestamp@),
            final(self).lines() == log_after_add(
                old(self).lines(),
                final(self).lines().last(),
                MAX_LOG_LINES as nat,
            ),
            final(self).scroll_pending() == (old(self).scroll_pending() || old(self).follows()),
            final(self).follows() == old(self).follows(),
    {
        self.add(LogLevel::Info, message)
    }

    /// Adds a warning entry.
    pub fn warning(&mut self, message: String)
        ensures
            final(self).lines().len() > 0,
            final(self).lines().last().level == LogLevel::Warning,
            final(self).lines().last().message == message,
            time_of_day_text(final(self).lines().last().timestamp@),
            final(self).lines() == log_after_add(
                old(self).lines(),
                final(self).lines().last(),
                MAX_LOG_LINES as nat,
            ),
            final(self).scroll_pending() == (old(self).scroll_pending() || old(self).follows()),
            final(self).follows() == old(self).follows(),
    {
        self.add(LogLevel::Warning, message)
    }

    /// Adds an error entry.
    pub fn error(&mut self, message: String)
        ensures
            final(self).lines().len() > 0,
            final(self).lines().last().level == LogLevel::Error,
            final(self).lines().last().message == message,
            time_of_day_text(final(self).lines().last().timestamp@),
            final(self).lines() == log_after_add(
                old(self).lines(),
                final(self).lines().last(),
                MAX_LOG_LINES as nat,
            ),
            final(self).scroll_pending() == (old(self).scroll_pending() || old(self).follows()),
            final(self).follows() == old(self).follows(),
    {
        self.add(LogLevel::Error, message)
    }

    /// Adds a success entry.
    pub fn success(&mut self, message: String)
        ensures
            final(self).lines().len() > 0,
            final(self).lines().last().level == LogLevel::Success,
            final(self).lines().last().message == message,
            time_of_day_text(final(self).lines().last().timestamp@),
            final(self).lines() == log_after_add(
                old(self).lines(),
                final(self).lines().last(),
                MAX_LOG_LINES as nat,
            ),
            final(self).scroll_pending() == (old(self).scroll_pending() || old(self).follows()),
            final(self).follows() == old(self).follows(),
    {
        self.add(LogLevel::Success, message)
    }

    /// Removes every entry.
    pub fn clear(&mut self)
        ensures
            final(self).lines() == Seq::<LogEntry>::empty(),
            final(self).scroll_pending() == old(self).scroll_pending(),
            final(self).follows() == old(self).follows(),
    {
        let mut entries: VecDeque<LogEntry> = VecDeque::new();
        std::mem::swap(&mut entries, &mut self.entries);
        entries.clear();
        self.entries = entries;
    }

    /// The entries, oldest first.
    pub fn entries(&self) -> (es: &VecDeque<LogEntry>)
        ensures
            es@ == self.lines(),
    {
        &self.entries
    }

    /// Whether adding an entry scrolls to it.
    pub fn auto_scroll(&self) -> (b: bool)
        ensures
            b == self.follows(),
    {
        self.auto_scroll
    }

    /// Sets whether adding an entry scrolls to it.
    pub fn set_auto_scroll(&mut self, on: bool)
        ensures
            final(self).follows() == on,
            final(self).lines() == old(self).lines(),
            final(self).scroll_pending() == old(self).scroll_pending(),
    {
        proof {
            use_type_invariant(&*self);
        }
        self.auto_scroll = on;
    }

    /// Whether the view should scroll to the newest entry.
    pub fn should_scroll(&self) -> (b: bool)
        ensures
            b == self.scroll_pending(),
    {
        self.scroll_to_bottom
    }

    /// Notes that the view has scrolled to the newest entry.
    pub fn scrolled(&mut self)
        ensures
            !final(self).scroll_pending(),
            final(self).lines() == old(self).lines(),
            final(self).follows() == old(self).follows(),
    {
        proof {
            use_type_invariant(&*self);
        }
        self.scroll_to_bottom = false;
    }
}

/// A panel that shows a game.
pub struct GameInfoPanel {}

impl GameInfoPanel {
    pub fn new() -> (p: Self) {
        GameInfoPanel {  }
    }
}

impl Default for GameInfoPanel {
    fn default() -> (p: Self) {
        Self::new()
    }
}

impl Default for LogBox {
    /// An empty log that follows new entries.
    fn default() -> (l: Self)
        ensures
            l.lines() == Seq::<LogEntry>::empty(),
            l.scroll_pending(),
            l.follows(),
    {
        Self::new()
    }
}

} // verus!
