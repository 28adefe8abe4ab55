//! The log and the notices.

use vstd::prelude::*;

use crate::app::state::{
    notices, Event, EventModel, GitApp, GitAppModel, Level, LOG_DROP, LOG_MAX,
};
use crate::text::{cat3, group_models, models};

verus! {

broadcast use group_models;

/// The log with one more line; when there are too many, the oldest go.
pub open spec fn with_line(log: Seq<EventModel>, line: EventModel) -> Seq<EventModel> {
    let all = log.push(line);
    if all.len() > LOG_MAX {
        all.skip(LOG_DROP as int)
    } else {
        all
    }
}

/// A line of the log, at the time `t`.
pub open spec fn line_at(t: Seq<char>, text: Seq<char>, level: Level) -> EventModel {
    EventModel { time: "["@ + t + "]"@, text, level }
}

/// What the log says of something that failed.
pub open spec fn failure(line: Seq<char>, detail: Seq<char>) -> Seq<char> {
    line + " :: failed :: "@ + detail
}

impl GitAppModel {
    pub open spec fn logged(self, t: Seq<char>, text: Seq<char>, level: Level) -> GitAppModel {
        GitAppModel { log: with_line(self.log, line_at(t, text, level)), ..self }
    }

    pub open spec fn noticed(self, success: bool, line: Seq<char>) -> GitAppModel {
        GitAppModel { notice_queue: self.notice_queue.push((success, line)), ..self }
    }

    pub open spec fn failed(self, t: Seq<char>, line: Seq<char>, detail: Seq<char>) -> GitAppModel {
        self.logged(t, failure(line, detail), Level::Danger).noticed(false, line)
    }
}

impl GitApp {
    /// Adds a line to the log. `t` is how long the application has been up, as text.
    pub fn push_log(&mut self, t: &str, text: String, level: Level)
        ensures
            final(self)@ == old(self)@.logged(t@, text@, level),
    {
        let ghost before = self.log@;
        let ghost line = line_at(t@, text@, level);
        self.log.push(Event { time: cat3("[", t, "]"), text, level });
        assert(models(self.log@) =~= models(before).push(line));
        if self.log.len() > LOG_MAX {
            let ghost all = self.log@;
            let kept = self.log.split_off(LOG_DROP);
            assert(models(kept@) =~= models(all).skip(LOG_DROP as int));
            self.log = kept;
        }
        assert(models(self.log@) =~= with_line(models(before), line));
    }

    /// Queues a notice.
    pub fn notice(&mut self, success: bool, line: String)
        ensures
            final(self)@ == old(self)@.noticed(success, line@),
    {
        let ghost before = self.notice_queue@;
        let ghost l = line@;
        self.notice_queue.push((success, line));
        assert(notices(self.notice_queue@) =~= notices(before).push((success, l)));
    }

    /// Logs a failure and queues a notice of it.
    pub fn fail(&mut self, t: &str, line: String, detail: &str)
        ensures
            final(self)@ == old(self)@.failed(t@, line@, detail@),
    {
        let text = cat3(line.as_str(), " :: failed :: ", detail);
        self.push_log(t, text, Level::Danger);
        self.notice(false, line);
    }
}

/// The log never grows past its limit, its newest line is the one that was added, and the others
/// are the newest of those before.
pub proof fn log_keeps_the_newest(log: Seq<EventModel>, line: EventModel)
    requires
        log.len() <= LOG_MAX,
    ensures
        0 < with_line(log, line).len() <= LOG_MAX,
        with_line(log, line).last() == line,
        with_line(log, line).drop_last().is_suffix_of(log),
        log.len() < LOG_MAX ==> with_line(log, line) == log.push(line),
{
    let now = with_line(log, line);
    let kept = now.drop_last();
    assert(kept =~= log.subrange(log.len() - kept.len(), log.len() as int));
}

} // verus!
