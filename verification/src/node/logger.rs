//! The node's log state: a full history plus a bounded rolling view for a
//! live dashboard. Callers wrap it in their own synchronization and
//! persist the history themselves.

use vstd::prelude::*;
use crate::clock;
use crate::text::json_stringable;

verus! {

/// How many entries the rolling view keeps.
pub const TEMP_LOG_LIMIT: usize = 50;

/// The rendered form of one log entry: tag, timestamp, separator, text.
pub open spec fn spec_log_line(tag: Seq<char>, stamp: Seq<char>, log: Seq<char>) -> Seq<char> {
    tag + " "@ + stamp + " | "@ + log
}

/// An append-only log history next to a rolling view of the most recent
/// entries.
pub struct Logger {
    logs: Vec<String>,
    temp_logs: Vec<String>,
}

impl Logger {
    /// The full history, oldest first.
    pub closed spec fn spec_logs(&self) -> Seq<String> {
        self.logs@
    }

    /// The rolling view, oldest first.
    pub closed spec fn spec_temp_logs(&self) -> Seq<String> {
        self.temp_logs@
    }

    /// The rolling view never exceeds its limit.
    pub open spec fn wf(&self) -> bool {
        self.spec_temp_logs().len() <= TEMP_LOG_LIMIT
    }

    /// An empty log.
    pub fn new() -> (r: Self)
        ensures
            r.spec_logs().len() == 0,
            r.spec_temp_logs().len() == 0,
            r.wf(),
    {
        Self { logs: Vec::new(), temp_logs: Vec::new() }
    }

    /// Appends to the rolling view, dropping the oldest entry once the
    /// view is full.
    fn temp_log(&mut self, log: String)
        requires
            old(self).wf(),
        ensures
            final(self).wf(),
            final(self).spec_logs() == old(self).spec_logs(),
            old(self).spec_temp_logs().len() < TEMP_LOG_LIMIT ==> final(self).spec_temp_logs()
                == old(self).spec_temp_logs().push(log),
            old(self).spec_temp_logs().len() == TEMP_LOG_LIMIT ==> final(self).spec_temp_logs()
                == old(self).spec_temp_logs().push(log).drop_first(),
    {
        self.temp_logs.push(log);
        if self.temp_logs.len() > TEMP_LOG_LIMIT {
            self.temp_logs.remove(0);
            proof {
                assert(final(self).temp_logs@ =~= old(self).temp_logs@.push(log).drop_first());
            }
        }
    }

    /// Appends to the full history.
    fn log_internal(&mut self, log: String)
        ensures
            final(self).spec_logs() == old(self).spec_logs().push(log),
            final(self).spec_temp_logs() == old(self).spec_temp_logs(),
    {
        self.logs.push(log);
    }

    /// Records an error line, stamped with the current time, in both the
    /// history and the rolling view.
    pub fn log_error(&mut self, log: String)
        requires
            old(self).wf(),
        ensures
            final(self).wf(),
            final(self).spec_logs().len() == old(self).spec_logs().len() + 1,
            final(self).spec_logs().drop_last() == old(self).spec_logs(),
            exists|stamp: Seq<char>|
                json_stringable(stamp) && final(self).spec_logs().last()@ == spec_log_line(
                    "[ERROR]"@,
                    stamp,
                    log@,
                ),
            old(self).spec_temp_logs().len() < TEMP_LOG_LIMIT ==> final(self).spec_temp_logs()
                == old(self).spec_temp_logs().push(final(self).spec_logs().last()),
            old(self).spec_temp_logs().len() == TEMP_LOG_LIMIT ==> final(self).spec_temp_logs()
                == old(self).spec_temp_logs().push(final(self).spec_logs().last()).drop_first(),
    {
        let stamp = clock::now_log_text();
        let line = render_line("[ERROR]", &stamp, &log);
        let line_copy = line.clone();
        self.log_internal(line);
        self.temp_log(line_copy);
    }

    /// Records an ordinary line, stamped with the current time, in both
    /// the history and the rolling view.
    pub fn log(&mut self, log: String)
        requires
            old(self).wf(),
        ensures
            final(self).wf(),
            final(self).spec_logs().len() == old(self).spec_logs().len() + 1,
            final(self).spec_logs().drop_last() == old(self).spec_logs(),
            exists|stamp: Seq<char>|
                json_stringable(stamp) && final(self).spec_logs().last()@ == spec_log_line(
                    "[LOG]"@,
                    stamp,
                    log@,
                ),
            old(self).spec_temp_logs().len() < TEMP_LOG_LIMIT ==> final(self).spec_temp_logs()
                == old(self).spec_temp_logs().push(final(self).spec_logs().last()),
            old(self).spec_temp_logs().len() == TEMP_LOG_LIMIT ==> final(self).spec_temp_logs()
                == old(self).spec_temp_logs().push(final(self).spec_logs().last()).drop_first(),
    {
        let stamp = clock::now_log_text();
        let line = render_line("[LOG]", &stamp, &log);
        let line_copy = line.clone();
        self.log_internal(line);
        self.temp_log(line_copy);
    }

    /// A copy of the full history.
    pub fn read_logs(&self) -> (r: Vec<String>)
        ensures
            r@ == self.spec_logs(),
    {
        self.logs.clone()
    }

    /// A copy of the rolling view.
    pub fn read_temp_logs(&self) -> (r: Vec<String>)
        ensures
            r@ == self.spec_temp_logs(),
    {
        self.temp_logs.clone()
    }
}

/// Renders one log line from its tag, timestamp and text.
fn render_line(tag: &str, stamp: &String, log: &String) -> (r: String)
    ensures
        r@ == spec_log_line(tag@, stamp@, log@),
{
    let mut line = String::from_str(tag);
    line.append(" ");
    line.append(stamp.as_str());
    line.append(" | ");
    line.append(log.as_str());
    proof {
        assert(line@ =~= spec_log_line(tag@, stamp@, log@));
    }
    line
}

} // verus!
