//! Times as text.

use vstd::prelude::*;

use crate::number::{decimal, decimal_text};
use crate::text::{cat2, opt_model, owned};

verus! {

/// The first second that a time on the calendar can stand for: the start of the year -262143.
pub const FIRST_SECOND: i64 = -8_334_601_228_800;

/// The last second that a time on the calendar can stand for: the end of the year 262142.
pub const LAST_SECOND: i64 = 8_210_266_876_799;

/// Whether `unix` is a second of the calendar.
pub open spec fn on_calendar(unix: int) -> bool {
    FIRST_SECOND <= unix <= LAST_SECOND
}

/// How `chrono` writes the time of day and date of a clock that is `offset` seconds ahead of UTC,
/// `unix` seconds after the start of 1970, in a pattern.
pub uninterp spec fn clock_text(unix: int, offset: int, pattern: Seq<char>) -> Seq<char>;

/// `text` is what some clock shows at `unix`, less than a day ahead of UTC or behind it.
pub open spec fn on_a_clock(unix: int, pattern: Seq<char>, text: Seq<char>) -> bool {
    exists|offset: int|
        -86_400 < offset < 86_400 && text == #[trigger] clock_text(unix, offset, pattern)
}

/// `chrono::DateTime::from_timestamp` without nanoseconds, taken to the local time zone
/// (`with_timezone`) and written in the pattern (`format`). There is a time for exactly the
/// seconds of the calendar. Its text is what a clock with the offset of the machine's time zone
/// at that second shows; the zone, and so the offset, is not known, only that it is less than a
/// day.
#[verifier::external_body]
fn local_text(unix: i64, pattern: &str) -> (r: Option<String>)
    requires
        pattern@ == "%Y-%m-%d %H:%M"@,
    ensures
        r is Some <==> on_calendar(unix as int),
        r is Some ==> exists|offset: int|
            -86_400 < offset < 86_400 && r.unwrap()@ == #[trigger] clock_text(
                unix as int,
                offset,
                pattern@,
            ),
{
    chrono::DateTime::from_timestamp(unix, 0).map(
        |t| t.with_timezone(&chrono::Local).format(pattern).to_string(),
    )
}

/// A time, or two dashes where there is none.
pub open spec fn or_dashes(text: Option<Seq<char>>) -> Seq<char> {
    match text {
        Some(t) => t,
        None => "--"@,
    }
}

/// A time as it is shown: the text of the calendar, or two dashes.
pub fn shown(text: Option<String>) -> (r: String)
    ensures
        r@ == or_dashes(opt_model(text)),
{
    match text {
        Some(t) => t,
        None => owned("--"),
    }
}

/// `text` shows the time `unix`.
pub open spec fn shows_time(unix: int, text: Seq<char>) -> bool {
    if on_calendar(unix) {
        on_a_clock(unix, "%Y-%m-%d %H:%M"@, text)
    } else {
        text == "--"@
    }
}

/// `2026-09-04 12:34` in local time.
pub fn fmt_time(unix: i64) -> (r: String)
    ensures
        shows_time(unix as int, r@),
{
    shown(local_text(unix, "%Y-%m-%d %H:%M"))
}

/// How long ago something was, as words, `d` seconds later; none from thirty days on.
pub open spec fn ago(d: int) -> Option<Seq<char>> {
    if d < 60 {
        Some("now"@)
    } else if d < 3_600 {
        Some(decimal((d / 60) as nat) + " min ago"@)
    } else if d < 86_400 {
        Some(decimal((d / 3_600) as nat) + " h ago"@)
    } else if d < 2_592_000 {
        Some(decimal((d / 86_400) as nat) + " d ago"@)
    } else {
        None
    }
}

/// How long before `now` the time `unix` is, as words; none from thirty days on. A time to come
/// counts as now.
pub fn ago_text(unix: i64, now: i64) -> (r: Option<String>)
    requires
        i64::MIN <= now - unix <= i64::MAX,
    ensures
        opt_model(r) == ago(now - unix),
{
    let d: i64 = now - unix;
    if d < 60 {
        Some(owned("now"))
    } else if d < 3_600 {
        Some(cat2(decimal_text((d / 60) as u128).as_str(), " min ago"))
    } else if d < 86_400 {
        Some(cat2(decimal_text((d / 3_600) as u128).as_str(), " h ago"))
    } else if d < 2_592_000 {
        Some(cat2(decimal_text((d / 86_400) as u128).as_str(), " d ago"))
    } else {
        None
    }
}

/// `text` shows how long before `now` the time `unix` is: in words, or as a date.
pub open spec fn shows_ago(unix: int, now: int, text: Seq<char>) -> bool {
    match ago(now - unix) {
        Some(words) => text == words,
        None => shows_time(unix, text),
    }
}

/// `3 min ago`, `2 h ago`, `5 d ago`.
pub fn fmt_ago(unix: i64, now: i64) -> (r: String)
    requires
        i64::MIN <= now - unix <= i64::MAX,
    ensures
        shows_ago(unix as int, now as int, r@),
{
    match ago_text(unix, now) {
        Some(words) => words,
        None => fmt_time(unix),
    }
}

/// Below thirty days only the distance counts: texts that show how long ago something was are the
/// same when both times move by `k` seconds.
pub proof fn only_the_distance_counts(
    unix: int,
    now: int,
    k: int,
    text: Seq<char>,
    moved: Seq<char>,
)
    requires
        now - unix < 2_592_000,
        shows_ago(unix, now, text),
        shows_ago(unix + k, now + k, moved),
    ensures
        text == moved,
{
}

/// From thirty days on a text shows how long ago something was exactly when it shows that time.
pub proof fn old_times_are_dates(unix: int, now: int, text: Seq<char>)
    requires
        now - unix >= 2_592_000,
    ensures
        shows_ago(unix, now, text) <==> shows_time(unix, text),
{
}

/// Times are told in whole minutes below an hour, whole hours below a day and whole days below
/// thirty; the last minute, and a time to come, is now.
pub proof fn times_are_told_in_whole_units(n: int, rest: int)
    requires
        n >= 1,
        rest >= 0,
    ensures
        n < 60 && rest < 60 ==> ago(60 * n + rest) == Some(decimal(n as nat) + " min ago"@),
        n < 24 && rest < 3_600 ==> ago(3_600 * n + rest) == Some(decimal(n as nat) + " h ago"@),
        n < 30 && rest < 86_400 ==> ago(86_400 * n + rest) == Some(
            decimal(n as nat) + " d ago"@,
        ),
        ago(59 - rest) == Some("now"@),
        ago(30 * 86_400 + rest) is None,
{
}

/// A time of the calendar is shown to the minute, as some clock shows it that is less than a day
/// off; any other time is shown as two dashes.
pub proof fn times_are_shown_to_the_minute(unix: int, text: Seq<char>)
    ensures
        or_dashes(Some(text)) == text,
        or_dashes(None) == "--"@,
        -8_334_601_228_800 <= unix <= 8_210_266_876_799 ==> (shows_time(unix, text) <==> exists|
            offset: int,
        |
            -86_400 < offset < 86_400 && text == #[trigger] clock_text(
                unix,
                offset,
                "%Y-%m-%d %H:%M"@,
            )),
        !(-8_334_601_228_800 <= unix <= 8_210_266_876_799) ==> (shows_time(unix, text) <==> text
            == "--"@),
{
}

} // verus!
