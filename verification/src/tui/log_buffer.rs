//! An in-memory log of the latest entries, dropping the oldest beyond its capacity.

use vstd::prelude::*;

verus! {

/// The level of a log entry.
#[derive(Debug, Clone, Copy, PartialEq, Eq, Structural)]
pub enum LogLevel {
    Trace,
    Debug,
    Info,
    Warn,
    Error,
}

/// One captured log entry.
#[derive(Debug, Clone)]
pub struct LogEntry {
    pub timestamp: String,
    pub level: LogLevel,
    pub message: String,
}

/// The latest log entries, oldest first.
#[derive(Debug)]
pub struct LogBuffer {
    entries: Vec<LogEntry>,
    capacity: usize,
}

impl View for LogBuffer {
    type V = Seq<LogEntry>;

    closed spec fn view(&self) -> Seq<LogEntry> {
        self.entries@
    }
}

impl LogBuffer {
    /// The capacity the buffer was made with.
    pub closed spec fn spec_capacity(&self) -> nat {
        self.capacity as nat
    }

    /// An empty buffer keeping up to `capacity` entries.
    pub fn new(capacity: usize) -> (b: LogBuffer)
        ensures
            b@.len() == 0,
            b.spec_capacity() == capacity,
    {
        LogBuffer { entries: Vec::new(), capacity }
    }

    /// Adds an entry; when the buffer holds its capacity or more, the oldest entry is
    /// dropped first.
    pub fn push(&mut self, entry: LogEntry)
        ensures
            final(self).spec_capacity() == old(self).spec_capacity(),
            final(self)@ == (if old(self)@.len() >= old(self).spec_capacity() && old(self)@.len() > 0 {
                old(self)@.drop_first()
            } else {
                old(self)@
            }).push(entry),
    {
        if self.entries.len() >= self.capacity && self.entries.len() > 0 {
            self.entries.remove(0);
        }
        self.entries.push(entry);
    }

    /// The latest `n` entries (all of them when there are fewer), oldest first.
    pub fn recent(&self, n: usize) -> (v: Vec<LogEntry>)
        ensures
            v@.len() == if n < self@.len() { n as nat } else { self@.len() },
            forall|k: int| 0 <= k < v@.len() ==> copied(#[trigger] v@[k], self@[self@.len() - v@.len() + k]),
    {
        let len = self.entries.len();
        let skip = if len > n { len - n } else { 0 };
        let mut v: Vec<LogEntry> = Vec::new();
        for i in skip..len
            invariant
                skip <= len,
                len == self@.len(),
                skip == if len > n { len - n } else { 0 },
                v@.len() == i - skip,
                forall|k: int| 0 <= k < v@.len() ==> copied(#[trigger] v@[k], self@[skip + k]),
        {
            v.push(self.entries[i].copy());
        }
        v
    }

    /// How many entries the buffer holds.
    pub fn len(&self) -> (n: usize)
        ensures
            n == self@.len(),
    {
        self.entries.len()
    }

    /// All entries, oldest first.
    pub fn all(&self) -> (v: Vec<LogEntry>)
        ensures
            v@.len() == self@.len(),
            forall|k: int| 0 <= k < v@.len() ==> copied(#[trigger] v@[k], self@[k]),
    {
        let len = self.entries.len();
        let mut v: Vec<LogEntry> = Vec::new();
        for i in 0..len
            invariant
                len == self@.len(),
                v@.len() == i,
                forall|k: int| 0 <= k < v@.len() ==> copied(#[trigger] v@[k], self@[k]),
        {
            v.push(self.entries[i].copy());
        }
        v
    }
}

/// `a` is a copy of `b`.
pub open spec fn copied(a: LogEntry, b: LogEntry) -> bool {
    a.timestamp@ == b.timestamp@ && a.level == b.level && a.message@ == b.message@
}

impl LogEntry {
    /// A copy of the entry.
    pub fn copy(&self) -> (r: LogEntry)
        ensures
            copied(r, *self),
    {
        LogEntry { timestamp: self.timestamp.clone(), level: self.level, message: self.message.clone() }
    }
}

/// A buffer never holds more than its capacity, or one entry when its capacity is zero.
pub proof fn lemma_push_bounded(b: Seq<LogEntry>, cap: nat, e: LogEntry)
    requires
        b.len() <= if cap == 0 { 1 } else { cap },
    ensures
        ({
            let r = (if b.len() >= cap && b.len() > 0 { b.drop_first() } else { b }).push(e);
            &&& r.len() <= if cap == 0 { 1 } else { cap }
            &&& r.last() == e
        }),
{
}

/// The level as a log line shows it: its name in capitals, right-aligned in five
/// columns.
pub open spec fn level_text(level: LogLevel) -> Seq<char> {
    match level {
        LogLevel::Trace => "TRACE"@,
        LogLevel::Debug => "DEBUG"@,
        LogLevel::Info => " INFO"@,
        LogLevel::Warn => " WARN"@,
        LogLevel::Error => "ERROR"@,
    }
}

impl LogLevel {
    /// The level as a log line shows it.
    pub fn label(self) -> (s: String)
        ensures
            s@ == level_text(self),
    {
        match self {
            LogLevel::Trace => String::from_str("TRACE"),
            LogLevel::Debug => String::from_str("DEBUG"),
            LogLevel::Info => String::from_str(" INFO"),
            LogLevel::Warn => String::from_str(" WARN"),
            LogLevel::Error => String::from_str("ERROR"),
        }
    }
}

/// The first line to show of `total` lines in a window of `visible` lines, scrolled
/// back `scroll` lines from the latest; the scroll stops at the oldest line.
pub fn scroll_from_top(total: usize, visible: usize, scroll: usize) -> (top: usize)
    ensures
        total <= visible ==> top == 0,
        total > visible ==> top == total - visible - (if scroll < total - visible { scroll as int } else { total - visible }),
{
    let max_scroll = if total > visible { total - visible } else { 0 };
    let clamped = if scroll < max_scroll { scroll } else { max_scroll };
    max_scroll - clamped
}

} // verus!
