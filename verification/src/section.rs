//! The sidebar sections: sessions grouped by the local calendar day they
//! were last updated. Calendar arithmetic and time zones are jiff's.

use vstd::prelude::*;
use crate::calendar::{
    calendar_days, day_number, in_timestamp_range, is_local_date_of, system_time_zone, zone_date_of,
    zoned_date,
    MAX_TIMESTAMP_NANOS, MIN_TIMESTAMP_NANOS,
};
use crate::text::{decimal, decimal_string};
use crate::types::{sessions_view, Session, SpecSession};

verus! {

/// A calendar date of the proleptic Gregorian calendar, as jiff's
/// `civil::Date` holds it.
#[derive(Clone, Copy, Debug, PartialEq, Eq, Structural)]
pub struct CivilDate {
    pub year: i16,
    /// 1 (January) to 12.
    pub month: i8,
    pub day: i8,
}

pub open spec fn is_leap_year(year: int) -> bool {
    (year % 4 == 0 && year % 100 != 0) || year % 400 == 0
}

pub open spec fn days_in_month(year: int, month: int) -> int {
    if month == 2 {
        if is_leap_year(year) {
            29
        } else {
            28
        }
    } else if month == 4 || month == 6 || month == 9 || month == 11 {
        30
    } else {
        31
    }
}

/// The dates that jiff can hold: years -9999 to 9999, and days that
/// exist in their month.
pub open spec fn is_valid_date(date: CivilDate) -> bool {
    &&& -9999 <= date.year <= 9999
    &&& 1 <= date.month <= 12
    &&& 1 <= date.day <= days_in_month(date.year as int, date.month as int)
}

impl CivilDate {
    /// The date, where it exists.
    pub fn new(year: i16, month: i8, day: i8) -> (date: Option<CivilDate>)
        ensures
            match date {
                Some(d) => d == (CivilDate { year, month, day }) && is_valid_date(d),
                None => !is_valid_date(CivilDate { year, month, day }),
            },
    {
        if year < -9999 || year > 9999 || month < 1 || month > 12 || day < 1 {
            return None;
        }
        let leap = (year % 4 == 0 && year % 100 != 0) || year % 400 == 0;
        let last: i8 = if month == 2 {
            if leap {
                29
            } else {
                28
            }
        } else if month == 4 || month == 6 || month == 9 || month == 11 {
            30
        } else {
            31
        };
        if day > last {
            None
        } else {
            Some(CivilDate { year, month, day })
        }
    }
}

/// When the sessions of a sidebar section were last updated. Shells turn
/// it into a localized title.
#[derive(Clone, Copy, Debug, PartialEq, Eq, Hash, Structural)]
pub enum Period {
    Today,
    Yesterday,
    /// 2 to 7 days ago.
    PreviousSevenDays,
    /// 8 to 30 days ago.
    PreviousThirtyDays,
    /// Earlier this year. `month` is 1 (January) to 12.
    Month { month: u8 },
    /// Before this year.
    Year { year: i16 },
}

/// The period of `date`, which lies `days` calendar days before `today`.
pub open spec fn period_of(days: int, date: CivilDate, today: CivilDate) -> Period {
    if days <= 0 {
        Period::Today
    } else if days == 1 {
        Period::Yesterday
    } else if days <= 7 {
        Period::PreviousSevenDays
    } else if days <= 30 {
        Period::PreviousThirtyDays
    } else if date.year == today.year {
        Period::Month { month: (if date.month < 0 { -date.month } else { date.month as int }) as u8 }
    } else {
        Period::Year { year: date.year }
    }
}

/// The period of `date` as seen on `days` calendar days after it, at
/// `today`.
pub fn period_after(days: i32, date: CivilDate, today: CivilDate) -> (period: Period)
    ensures
        period == period_of(days as int, date, today),
{
    if days <= 0 {
        Period::Today
    } else if days == 1 {
        Period::Yesterday
    } else if days <= 7 {
        Period::PreviousSevenDays
    } else if days <= 30 {
        Period::PreviousThirtyDays
    } else if date.year == today.year {
        let month = date.month as i16;
        let month = if month < 0 {
            -month
        } else {
            month
        };
        Period::Month { month: month as u8 }
    } else {
        Period::Year { year: date.year }
    }
}

/// The period of `date` as seen at `today`. Calendar days, not 24-hour
/// periods, so a day with a DST change still counts as one.
pub fn period(date: CivilDate, today: CivilDate) -> (period: Period)
    requires
        is_valid_date(date),
        is_valid_date(today),
    ensures
        period == period_of(day_number(today) - day_number(date), date, today),
{
    let days = calendar_days(date, today);
    period_after(days, date, today)
}

/// A period is a count of calendar days: up to 30 days it depends on the
/// days between the dates alone, whatever their years (2 to 7 days ago
/// is the previous seven days, 8 to 30 the previous thirty); beyond that,
/// a date of this year gives its month, and an earlier one its year.
pub proof fn lemma_period_by_days(date: CivilDate, today: CivilDate)
    requires
        is_valid_date(date),
        is_valid_date(today),
    ensures
        ({
            let days = day_number(today) - day_number(date);
            let p = period_of(days, date, today);
            &&& days <= 0 <==> p == Period::Today
            &&& days == 1 <==> p == Period::Yesterday
            &&& 2 <= days <= 7 <==> p == Period::PreviousSevenDays
            &&& 8 <= days <= 30 <==> p == Period::PreviousThirtyDays
            &&& days > 30 && date.year == today.year <==> p == (Period::Month {
                month: date.month as u8,
            })
            &&& days > 30 && date.year != today.year <==> p == (Period::Year { year: date.year })
        }),
{
}

/// The instant whose local date `local_date` takes for `time`: `time`
/// itself, or the Unix epoch where jiff cannot hold it.
pub open spec fn dated_instant(time: i128) -> int {
    if MIN_TIMESTAMP_NANOS <= time <= MAX_TIMESTAMP_NANOS {
        time as int
    } else {
        0
    }
}

/// `date` can be what `local_date` gives for `time`: it lies within a
/// zone offset of the instant.
pub open spec fn is_local_date(date: CivilDate, time: i128) -> bool {
    is_local_date_of(date, dated_instant(time))
}

/// The local date of `time` in `time_zone`, as `local_date` gives it.
pub open spec fn local_date_in(time: i128, time_zone: jiff::tz::TimeZone) -> CivilDate {
    zone_date_of(dated_instant(time), time_zone)
}

/// The local calendar date of `time` (nanoseconds since the Unix epoch)
/// in `time_zone`; a time that jiff cannot hold counts as the Unix epoch.
pub fn local_date(time: i128, time_zone: &jiff::tz::TimeZone) -> (date: CivilDate)
    ensures
        date == local_date_in(time, *time_zone),
        is_local_date(date, time),
{
    if in_timestamp_range(time) {
        zoned_date(time, time_zone)
    } else {
        zoned_date(0, time_zone)
    }
}

/// The sidebar title of a period: "Today", "Yesterday", "Previous 7
/// Days", "Previous 30 Days", or the year. A month has none here: a shell
/// names it in the user's language.
pub open spec fn title_of_period(period: Period) -> Option<Seq<char>> {
    match period {
        Period::Today => Some("Today"@),
        Period::Yesterday => Some("Yesterday"@),
        Period::PreviousSevenDays => Some("Previous 7 Days"@),
        Period::PreviousThirtyDays => Some("Previous 30 Days"@),
        Period::Month { .. } => None,
        Period::Year { year } => Some(decimal(year as int)),
    }
}

/// The sidebar title of `period`, or `None` for a month, which a shell
/// names in the user's language.
pub fn period_title(period: Period) -> (title: Option<String>)
    ensures
        match title {
            Some(t) => title_of_period(period) == Some(t@),
            None => title_of_period(period) is None,
        },
{
    match period {
        Period::Today => Some("Today".to_owned()),
        Period::Yesterday => Some("Yesterday".to_owned()),
        Period::PreviousSevenDays => Some("Previous 7 Days".to_owned()),
        Period::PreviousThirtyDays => Some("Previous 30 Days".to_owned()),
        Period::Month { .. } => None,
        Period::Year { year } => Some(decimal_string(year)),
    }
}

/// What the sidebar shows of a session.
#[derive(Clone, Debug, PartialEq, Eq)]
pub struct ChatSummary {
    pub id: u64,
    pub title: String,
}

/// What a [`ChatSummary`] is.
pub struct SpecSummary {
    pub id: u64,
    pub title: Seq<char>,
}

impl View for ChatSummary {
    type V = SpecSummary;

    open spec fn view(&self) -> SpecSummary {
        SpecSummary { id: self.id, title: self.title@ }
    }
}

/// The summary of a session: its id and title.
pub open spec fn summary_of(session: SpecSession) -> SpecSummary {
    SpecSummary { id: session.id, title: session.title }
}

impl<'a> From<&'a Session> for ChatSummary {
    /// The session's id and title.
    fn from(session: &'a Session) -> (summary: ChatSummary) {
        ChatSummary { id: session.id, title: session.title.clone() }
    }
}

impl<'a> vstd::std_specs::convert::FromSpecImpl<&'a Session> for ChatSummary {
    open spec fn obeys_from_spec() -> bool {
        true
    }

    open spec fn from_spec(session: &'a Session) -> ChatSummary {
        ChatSummary { id: session.id, title: session.title }
    }
}

/// Consecutive sessions updated in the same [`Period`].
#[derive(Clone, Debug, PartialEq, Eq)]
pub struct ChatSection {
    pub period: Period,
    /// Newest first.
    pub chats: Vec<ChatSummary>,
}

/// What a [`ChatSection`] is.
pub struct SpecSection {
    pub period: Period,
    pub chats: Seq<SpecSummary>,
}

impl View for ChatSection {
    type V = SpecSection;

    open spec fn view(&self) -> SpecSection {
        SpecSection { period: self.period, chats: self.chats@.map_values(|c: ChatSummary| c@) }
    }
}

pub open spec fn sections_view(sections: Seq<ChatSection>) -> Seq<SpecSection> {
    sections.map_values(|s: ChatSection| s@)
}

/// The summaries of all sections, in order.
pub open spec fn flatten(sections: Seq<SpecSection>) -> Seq<SpecSummary>
    decreases sections.len(),
{
    if sections.len() == 0 {
        Seq::empty()
    } else {
        flatten(sections.drop_last()) + sections.last().chats
    }
}

/// The period of each summary of the sections, in order.
pub open spec fn flat_periods(sections: Seq<SpecSection>) -> Seq<Period>
    decreases sections.len(),
{
    if sections.len() == 0 {
        Seq::empty()
    } else {
        let last = sections.last();
        flat_periods(sections.drop_last()) + Seq::new(last.chats.len(), |i: int| last.period)
    }
}

/// `sections` groups `items`, whose periods are `periods`, into runs of
/// consecutive items with the same period: read in order they give back
/// the items and their periods, none is empty, and neighbours differ in
/// period. At most one list of sections does (`lemma_groups_unique`).
pub open spec fn groups(
    sections: Seq<SpecSection>,
    items: Seq<SpecSummary>,
    periods: Seq<Period>,
) -> bool {
    &&& flatten(sections) == items
    &&& flat_periods(sections) == periods
    &&& forall|k: int| 0 <= k < sections.len() ==> #[trigger] sections[k].chats.len() > 0
    &&& forall|k: int|
        0 < k < sections.len() ==> #[trigger] sections[k - 1].period != sections[k].period
}

/// The number of equal periods at the end of `periods`.
pub open spec fn tail_run(periods: Seq<Period>) -> nat
    decreases periods.len(),
{
    if periods.len() <= 1 {
        periods.len()
    } else if periods[periods.len() - 2] == periods.last() {
        1 + tail_run(periods.drop_last())
    } else {
        1
    }
}

proof fn lemma_tail_run(prefix: Seq<Period>, p: Period, n: nat)
    requires
        n > 0,
        prefix.len() == 0 || prefix.last() != p,
    ensures
        tail_run(prefix + Seq::new(n, |i: int| p)) == n,
    decreases n,
{
    let s = prefix + Seq::new(n, |i: int| p);
    if n > 1 {
        assert(s.drop_last() =~= prefix + Seq::new((n - 1) as nat, |i: int| p));
        lemma_tail_run(prefix, p, (n - 1) as nat);
        assert(s[s.len() - 2] == p);
    } else if prefix.len() > 0 {
        assert(s[s.len() - 2] == prefix.last());
    }
}

proof fn lemma_flat_lengths(sections: Seq<SpecSection>)
    ensures
        flatten(sections).len() == flat_periods(sections).len(),
    decreases sections.len(),
{
    if sections.len() > 0 {
        lemma_flat_lengths(sections.drop_last());
    }
}

/// The sections of a grouping without its last one group what comes
/// before the last run.
proof fn lemma_groups_drop_last(
    sections: Seq<SpecSection>,
    items: Seq<SpecSummary>,
    periods: Seq<Period>,
)
    requires
        sections.len() > 0,
        groups(sections, items, periods),
    ensures
        ({
            let k = (periods.len() - sections.last().chats.len()) as int;
            &&& 0 <= k < periods.len()
            &&& items.len() == periods.len()
            &&& groups(sections.drop_last(), items.take(k), periods.take(k))
            &&& sections.last().chats == items.skip(k)
            &&& sections.last().period == periods.last()
            &&& tail_run(periods) == sections.last().chats.len()
        }),
{
    let rest = sections.drop_last();
    let last = sections.last();
    let n = last.chats.len();
    assert(sections[sections.len() - 1].chats.len() > 0);
    lemma_flat_lengths(sections);
    lemma_flat_lengths(rest);
    let k = flat_periods(rest).len() as int;
    assert(periods == flat_periods(rest) + Seq::new(n, |i: int| last.period));
    assert(items == flatten(rest) + last.chats);
    assert(items.take(k) =~= flatten(rest));
    assert(items.skip(k) =~= last.chats);
    assert(periods.take(k) =~= flat_periods(rest));
    assert(periods.last() == last.period);
    assert forall|j: int| 0 <= j < rest.len() implies #[trigger] rest[j].chats.len() > 0 by {
        assert(sections[j].chats.len() > 0);
    }
    assert forall|j: int| 0 < j < rest.len() implies #[trigger] rest[j - 1].period != rest[j].period by {
        assert(sections[j - 1].period != sections[j].period);
    }
    if rest.len() > 0 {
        assert(rest.last().chats.len() > 0);
        let rr = rest.drop_last();
        assert(flat_periods(rest) == flat_periods(rr) + Seq::new(rest.last().chats.len(), |i: int| rest.last().period));
        assert(flat_periods(rest).last() == rest.last().period);
        assert(sections[sections.len() - 2].period != sections[sections.len() - 1].period);
    }
    lemma_tail_run(flat_periods(rest), last.period, n);
}

/// A grouping is determined by what it groups: two lists of sections that
/// group the same items with the same periods are equal.
pub proof fn lemma_groups_unique(
    a: Seq<SpecSection>,
    b: Seq<SpecSection>,
    items: Seq<SpecSummary>,
    periods: Seq<Period>,
)
    requires
        groups(a, items, periods),
        groups(b, items, periods),
    ensures
        a == b,
    decreases a.len(),
{
    if a.len() == 0 || b.len() == 0 {
        if a.len() > 0 {
            lemma_groups_drop_last(a, items, periods);
        }
        if b.len() > 0 {
            lemma_groups_drop_last(b, items, periods);
        }
        assert(a =~= b);
    } else {
        lemma_groups_drop_last(a, items, periods);
        lemma_groups_drop_last(b, items, periods);
        let k = (periods.len() - a.last().chats.len()) as int;
        lemma_groups_unique(a.drop_last(), b.drop_last(), items.take(k), periods.take(k));
        assert(a.last() == b.last());
        assert(a =~= a.drop_last().push(a.last()));
        assert(b =~= b.drop_last().push(b.last()));
    }
}

/// The summaries of `sessions`, in order.
pub open spec fn summaries(sessions: Seq<SpecSession>) -> Seq<SpecSummary> {
    sessions.map_values(|s: SpecSession| summary_of(s))
}

proof fn lemma_seq_new_push(n: nat, p: Period)
    ensures
        Seq::new(n + 1, |i: int| p) == Seq::new(n, |i: int| p).push(p),
{
    assert(Seq::new(n + 1, |i: int| p) =~= Seq::new(n, |i: int| p).push(p));
}

/// Groups `sessions` (newest first) into sections by their periods:
/// `periods[k]` is the period of `sessions[k]`.
pub fn group_by_period(sessions: &[Session], periods: &Vec<Period>) -> (sections: Vec<ChatSection>)
    requires
        sessions@.len() == periods@.len(),
    ensures
        groups(sections_view(sections@), summaries(sessions_view(sessions@)), periods@),
{
    let ghost items = summaries(sessions_view(sessions@));
    let mut sections: Vec<ChatSection> = Vec::new();
    assert(sections_view(sections@) =~= Seq::<SpecSection>::empty());
    assert(items.take(0) =~= Seq::<SpecSummary>::empty());
    assert(periods@.take(0) =~= Seq::<Period>::empty());
    let mut i: usize = 0;
    while i < sessions.len()
        invariant
            i <= sessions@.len() == periods@.len(),
            items == summaries(sessions_view(sessions@)),
            groups(sections_view(sections@), items.take(i as int), periods@.take(i as int)),
        decreases sessions@.len() - i,
    {
        let summary = ChatSummary::from(&sessions[i]);
        let period = periods[i];
        let ghost before = sections_view(sections@);
        assert(summary@ == items[i as int]);
        assert(items.take(i + 1) =~= items.take(i as int) + seq![summary@]);
        assert(periods@.take(i + 1) =~= periods@.take(i as int) + seq![period]);
        let n = sections.len();
        if n > 0 && sections[n - 1].period == period {
            let mut last = sections.pop().unwrap();
            let ghost last_before = last@;
            last.chats.push(summary);
            assert(last@.chats =~= last_before.chats.push(summary@));
            sections.push(last);
            proof {
                let after = sections_view(sections@);
                assert(after.drop_last() =~= before.drop_last());
                assert(after =~= before.update(before.len() - 1, last@));
                assert(flatten(before) == flatten(before.drop_last()) + last_before.chats);
                assert(flatten(after) =~= flatten(before) + seq![summary@]);
                lemma_seq_new_push(last_before.chats.len(), period);
                assert(flat_periods(after) =~= flat_periods(before) + seq![period]);
                assert forall|k: int| 0 < k < after.len() implies #[trigger] after[k - 1].period
                    != after[k].period by {
                    assert(after[k - 1].period == before[k - 1].period);
                    assert(after[k].period == before[k].period);
                }
                assert forall|k: int| 0 <= k < after.len() implies #[trigger] after[k].chats.len()
                    > 0 by {
                    if k < after.len() - 1 {
                        assert(after[k] == before[k]);
                    }
                }
                assert(groups(after, items.take(i + 1), periods@.take(i + 1)));
            }
        } else {
            let mut chats: Vec<ChatSummary> = Vec::new();
            chats.push(summary);
            let section = ChatSection { period, chats };
            assert(section@.chats =~= seq![summary@]);
            sections.push(section);
            proof {
                let after = sections_view(sections@);
                assert(after =~= before.push(section@));
                assert(after.drop_last() =~= before);
                assert(flatten(after) =~= flatten(before) + seq![summary@]);
                assert(Seq::new(1, |j: int| period) =~= seq![period]);
                assert(flat_periods(after) =~= flat_periods(before) + seq![period]);
                assert forall|k: int| 0 < k < after.len() implies #[trigger] after[k - 1].period
                    != after[k].period by {
                    if k == after.len() - 1 {
                        assert(after[k - 1] == before[n - 1]);
                    } else {
                        assert(after[k - 1] == before[k - 1]);
                        assert(after[k] == before[k]);
                    }
                }
                assert forall|k: int| 0 <= k < after.len() implies #[trigger] after[k].chats.len()
                    > 0 by {
                    if k < after.len() - 1 {
                        assert(after[k] == before[k]);
                    }
                }
                assert(groups(after, items.take(i + 1), periods@.take(i + 1)));
            }
        }
        i += 1;
    }
    assert(items.take(sessions@.len() as int) =~= items);
    assert(periods@.take(sessions@.len() as int) =~= periods@);
    sections
}

/// The periods of `dates` as seen at `today`.
pub open spec fn periods_at(dates: Seq<CivilDate>, today: CivilDate) -> Seq<Period> {
    dates.map_values(|d: CivilDate| period_of(day_number(today) - day_number(d), d, today))
}

/// The local dates in `time_zone` of the last updates of `sessions`.
pub open spec fn update_dates(sessions: Seq<SpecSession>, time_zone: jiff::tz::TimeZone) -> Seq<
    CivilDate,
> {
    sessions.map_values(|s: SpecSession| local_date_in(s.updated_at, time_zone))
}

/// `sections` are the sessions grouped by the periods, in `time_zone`, of
/// their last updates as seen at `now`.
pub open spec fn sectioned(
    sections: Seq<SpecSection>,
    sessions: Seq<SpecSession>,
    now: i128,
    time_zone: jiff::tz::TimeZone,
) -> bool {
    groups(
        sections,
        summaries(sessions),
        periods_at(update_dates(sessions, time_zone), local_date_in(now, time_zone)),
    )
}

/// The sections of sessions in one zone at one time are determined: two
/// lists of sections that both group `sessions` at `now` in `time_zone`
/// are equal. So `session_sections` gives what `sections_in` gives with
/// the machine's zone.
pub proof fn lemma_sectioned_unique(
    a: Seq<SpecSection>,
    b: Seq<SpecSection>,
    sessions: Seq<SpecSession>,
    now: i128,
    time_zone: jiff::tz::TimeZone,
)
    requires
        sectioned(a, sessions, now, time_zone),
        sectioned(b, sessions, now, time_zone),
    ensures
        a == b,
{
    lemma_groups_unique(
        a,
        b,
        summaries(sessions),
        periods_at(update_dates(sessions, time_zone), local_date_in(now, time_zone)),
    );
}

/// Groups `sessions` (newest first) by the calendar day, in `time_zone`,
/// they were last updated, as seen at `now`.
pub fn sections_in(sessions: &[Session], now: i128, time_zone: &jiff::tz::TimeZone) -> (sections:
    Vec<ChatSection>)
    ensures
        sectioned(sections_view(sections@), sessions_view(sessions@), now, *time_zone),
{
    let today = local_date(now, time_zone);
    let mut periods: Vec<Period> = Vec::new();
    let ghost mut dates: Seq<CivilDate> = Seq::empty();
    assert(dates =~= update_dates(sessions_view(sessions@), *time_zone).take(0));
    let mut i: usize = 0;
    while i < sessions.len()
        invariant
            i <= sessions@.len(),
            today == local_date_in(now, *time_zone),
            is_valid_date(today),
            dates == update_dates(sessions_view(sessions@), *time_zone).take(i as int),
            periods@ == periods_at(dates, today),
        decreases sessions@.len() - i,
    {
        let date = local_date(sessions[i].updated_at, time_zone);
        let p = period(date, today);
        periods.push(p);
        proof {
            let all = update_dates(sessions_view(sessions@), *time_zone);
            assert(all[i as int] == date);
            assert(all.take(i + 1) =~= dates.push(date));
            dates = dates.push(date);
            assert(periods@ =~= periods_at(dates, today));
        }
        i += 1;
    }
    let sections = group_by_period(sessions, &periods);
    assert(dates =~= update_dates(sessions_view(sessions@), *time_zone));
    sections
}

/// Groups `sessions` (newest first) by the local calendar day they were
/// last updated, as seen at `now`, in this machine's time zone: what
/// `sections_in` gives with one zone, the one the machine has.
pub fn session_sections(sessions: &[Session], now: i128) -> (sections: Vec<ChatSection>)
    ensures
        exists|time_zone: jiff::tz::TimeZone|
            sectioned(sections_view(sections@), sessions_view(sessions@), now, time_zone),
{
    let time_zone = system_time_zone();
    sections_in(sessions, now, &time_zone)
}

} // verus!
