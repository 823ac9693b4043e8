//! A bounded log of errors: each entry has a time, a module, a message, a
//! severity and an optional context; when the log is full the oldest entry
//! leaves.
use vstd::prelude::*;
use chrono::{DateTime, Utc};
use std::time::SystemTime;

verus! {

/// The system clock read through chrono's `From<SystemTime>` for
/// `DateTime<Utc>`, given as that value's whole seconds since the Unix
/// epoch (negative before 1970) and its nanoseconds within the second. It
/// depends on the clock, so only the range of the nanoseconds is stated:
/// the conversion keeps them below one second. chrono's conversion handles
/// times before the epoch and fails only outside its range of about
/// 262,000 years around 1970, which a system clock held in 64-bit
/// nanoseconds cannot reach.
#[verifier::external_body]
fn utc_now() -> (t: (i64, u32))
    ensures
        t.1 < 1_000_000_000,
{
    let now = DateTime::<Utc>::from(SystemTime::now());
    (now.timestamp(), now.timestamp_subsec_nanos())
}

/// A moment in UTC to the nanosecond, as chrono's `DateTime<Utc>` holds it.
#[derive(Clone, Copy, Debug, PartialEq, Eq, Structural)]
pub struct Timestamp {
    /// Whole seconds since the Unix epoch; negative before 1970.
    pub seconds: i64,
    /// Nanoseconds within the second.
    pub nanoseconds: u32,
}

/// How serious an error is.
#[derive(Clone, Copy, Debug, PartialEq, Eq, Structural)]
pub enum ErrorSeverity {
    Warning,
    Error,
    Critical,
}

/// One logged error.
pub struct ErrorLogEntry {
    /// When the error was logged.
    pub timestamp: Timestamp,
    pub module: String,
    pub message: String,
    pub severity: ErrorSeverity,
    pub context: Option<String>,
}

impl ErrorLogEntry {
    pub fn clone(&self) -> (c: Self)
        ensures
            c == *self,
    {
        ErrorLogEntry {
            timestamp: self.timestamp,
            module: self.module.clone(),
            message: self.message.clone(),
            severity: self.severity,
            context: match &self.context {
                Some(c) => Some(c.clone()),
                None => None,
            },
        }
    }
}

/// The entries of a log after adding `e` to `log` with room for `max`:
/// the oldest entry leaves first when the log is full.
pub open spec fn logged(log: Seq<ErrorLogEntry>, max: usize, e: ErrorLogEntry) -> Seq<ErrorLogEntry> {
    if log.len() >= max && log.len() > 0 {
        log.drop_first().push(e)
    } else {
        log.push(e)
    }
}

/// Logging never lets the log grow beyond its limit (or one entry, for a
/// limit of zero), and the newest entry is always the last.
pub proof fn lemma_log_bounded(log: Seq<ErrorLogEntry>, max: usize, e: ErrorLogEntry)
    requires
        log.len() <= (if max == 0 { 1 } else { max as int }),
    ensures
        logged(log, max, e).len() <= (if max == 0 { 1 } else { max as int }),
        logged(log, max, e).last() == e,
        log.len() < max ==> logged(log, max, e) == log.push(e),
{
}

/// The entries of `log` of severity `s`, in order.
pub open spec fn of_severity(log: Seq<ErrorLogEntry>, s: ErrorSeverity) -> Seq<ErrorLogEntry> {
    log.filter(|e: ErrorLogEntry| e.severity == s)
}

/// A log that keeps at most `max_log_size` entries (one when that is 0).
pub struct ErrorLogger {
    log: Vec<ErrorLogEntry>,
    max_log_size: usize,
}

impl ErrorLogger {
    /// The entries, oldest first.
    pub closed spec fn entries(&self) -> Seq<ErrorLogEntry> {
        self.log@
    }

    pub closed spec fn max_size(&self) -> usize {
        self.max_log_size
    }

    /// An empty log.
    pub fn new(max_log_size: usize) -> (l: Self)
        ensures
            l.entries().len() == 0,
            l.max_size() == max_log_size,
    {
        ErrorLogger { log: Vec::new(), max_log_size }
    }

    /// Logs an error at the current time.
    pub fn log_error(&mut self, module: &str, message: &str, severity: ErrorSeverity, context: Option<String>)
        ensures
            final(self).max_size() == old(self).max_size(),
            final(self).entries().len() == logged(old(self).entries(), old(self).max_size(), final(self).entries().last()).len(),
            final(self).entries() == logged(old(self).entries(), old(self).max_size(), final(self).entries().last()),
            final(self).entries().last().module@ == module@,
            final(self).entries().last().message@ == message@,
            final(self).entries().last().severity == severity,
            final(self).entries().last().context == context,
            final(self).entries().last().timestamp.nanoseconds < 1_000_000_000,
    {
        let (seconds, nanoseconds) = utc_now();
        let entry = ErrorLogEntry {
            timestamp: Timestamp { seconds, nanoseconds },
            module: module.to_owned(),
            message: message.to_owned(),
            severity,
            context,
        };
        self.add_entry(entry);
    }

    /// Adds an entry; when the log is full the oldest entry leaves.
    pub fn add_entry(&mut self, entry: ErrorLogEntry)
        ensures
            final(self).max_size() == old(self).max_size(),
            final(self).entries() == logged(old(self).entries(), old(self).max_size(), entry),
    {
        if self.log.len() >= self.max_log_size && self.log.len() > 0 {
            let _ = self.log.remove(0);
        }
        self.log.push(entry);
        proof {
            assert(self.log@ =~= logged(old(self).log@, old(self).max_log_size, entry));
        }
    }

    /// All entries, oldest first.
    pub fn get_logs(&self) -> (es: Vec<ErrorLogEntry>)
        ensures
            es@ == self.entries(),
    {
        let mut es: Vec<ErrorLogEntry> = Vec::new();
        let mut i: usize = 0;
        while i < self.log.len()
            invariant
                i <= self.log@.len(),
                es@ == self.log@.take(i as int),
            decreases self.log@.len() - i,
        {
            es.push(self.log[i].clone());
            proof {
                assert(self.log@.take(i + 1) == self.log@.take(i as int).push(self.log@[i as int]));
            }
            i = i + 1;
        }
        proof {
            assert(self.log@.take(self.log@.len() as int) == self.log@);
        }
        es
    }

    /// The entries of severity `severity`, oldest first.
    pub fn get_logs_by_severity(&self, severity: ErrorSeverity) -> (es: Vec<ErrorLogEntry>)
        ensures
            es@ == of_severity(self.entries(), severity),
    {
        let mut es: Vec<ErrorLogEntry> = Vec::new();
        let mut i: usize = 0;
        while i < self.log.len()
            invariant
                i <= self.log@.len(),
                es@ == of_severity(self.log@.take(i as int), severity),
            decreases self.log@.len() - i,
        {
            proof {
                let t = self.log@.take(i + 1);
                assert(t.drop_last() == self.log@.take(i as int));
                reveal_with_fuel(Seq::filter, 1);
            }
            if self.log[i].severity == severity {
                es.push(self.log[i].clone());
            }
            i = i + 1;
        }
        proof {
            assert(self.log@.take(self.log@.len() as int) == self.log@);
        }
        es
    }

    /// Removes every entry.
    pub fn clear_logs(&mut self)
        ensures
            final(self).entries().len() == 0,
            final(self).max_size() == old(self).max_size(),
    {
        self.log.clear();
    }

    /// The number of entries.
    pub fn log_count(&self) -> (n: usize)
        ensures
            n == self.entries().len(),
    {
        self.log.len()
    }
}

} // verus!
