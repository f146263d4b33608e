use jiff::civil::Date;
use jiff::tz::TimeZone;
use miracle_core::{
    local_date, period, period_after, period_title, sections_in, session_sections, Chat, CivilDate, Model, Period,
    Session,
};

fn date(year: i16, month: i8, day: i8) -> CivilDate {
    CivilDate::new(year, month, day).expect("the date exists")
}

/// Nanoseconds since the Unix epoch of `hour` o'clock on `date`, local time.
fn at(date: Date, hour: i8, time_zone: &TimeZone) -> i128 {
    date.at(hour, 0, 0, 0)
        .to_zoned(time_zone.clone())
        .expect("the time exists")
        .timestamp()
        .as_nanosecond()
}

fn chat(id: u64, updated_at: i128) -> Session {
    Session {
        id,
        title: format!("Chat {id}"),
        model: Model::default(),
        updated_at,
        chat: Chat::default(),
    }
}

#[test]
fn periods_follow_calendar_days() {
    let today = date(2026, 9, 23);
    assert_eq!(period(date(2026, 9, 24), today), Period::Today);
    assert_eq!(period(today, today), Period::Today);
    assert_eq!(period(date(2026, 9, 22), today), Period::Yesterday);
    assert_eq!(period(date(2026, 9, 16), today), Period::PreviousSevenDays);
    assert_eq!(period(date(2026, 9, 15), today), Period::PreviousThirtyDays);
    assert_eq!(period(date(2026, 8, 24), today), Period::PreviousThirtyDays);
    assert_eq!(period(date(2026, 8, 23), today), Period::Month { month: 8 });
    assert_eq!(
        period(date(2025, 12, 31), today),
        Period::Year { year: 2025 }
    );
    assert_eq!(
        period(date(2026, 12, 31), date(2027, 1, 2)),
        Period::PreviousSevenDays
    );
}

#[test]
fn sections_group_consecutive_chats_in_local_time() {
    let time_zone = TimeZone::get("Europe/Amsterdam").expect("the zone exists");
    // Clocks go back on 25 October 2026: a 25-hour day.
    let now = at(jiff::civil::date(2026, 10, 26), 0, &time_zone);
    let chats = [
        chat(1, at(jiff::civil::date(2026, 10, 26), 0, &time_zone)),
        chat(2, at(jiff::civil::date(2026, 10, 25), 0, &time_zone)),
        chat(3, at(jiff::civil::date(2026, 10, 24), 23, &time_zone)),
    ];
    let sections = sections_in(&chats, now, &time_zone);
    let periods: Vec<_> = sections
        .iter()
        .map(|section| (section.period, section.chats.len()))
        .collect();
    assert_eq!(
        periods,
        [
            (Period::Today, 1),
            (Period::Yesterday, 1),
            (Period::PreviousSevenDays, 1)
        ]
    );
}

#[test]
fn period_boundaries() {
    let d = date(2026, 3, 5);
    let t = date(2026, 9, 23);
    assert_eq!(period_after(-3, d, t), Period::Today);
    assert_eq!(period_after(0, d, t), Period::Today);
    assert_eq!(period_after(1, d, t), Period::Yesterday);
    assert_eq!(period_after(2, d, t), Period::PreviousSevenDays);
    assert_eq!(period_after(7, d, t), Period::PreviousSevenDays);
    assert_eq!(period_after(8, d, t), Period::PreviousThirtyDays);
    assert_eq!(period_after(30, d, t), Period::PreviousThirtyDays);
    assert_eq!(period_after(31, d, t), Period::Month { month: 3 });
    assert_eq!(
        period_after(31, date(2019, 3, 5), t),
        Period::Year { year: 2019 }
    );
    assert_eq!(period(date(-40, 2, 29), date(-40, 6, 1)), Period::Month { month: 2 });
}

#[test]
fn civil_dates_exist_or_not() {
    assert!(CivilDate::new(2024, 2, 29).is_some());
    assert!(CivilDate::new(2023, 2, 29).is_none());
    assert!(CivilDate::new(2000, 2, 29).is_some());
    assert!(CivilDate::new(1900, 2, 29).is_none());
    assert!(CivilDate::new(2026, 4, 31).is_none());
    assert!(CivilDate::new(2026, 13, 1).is_none());
    assert!(CivilDate::new(2026, 0, 1).is_none());
    assert!(CivilDate::new(10000, 1, 1).is_none());
    assert!(CivilDate::new(-9999, 1, 1).is_some());
}

#[test]
fn local_dates_follow_the_zone_and_clamp_to_the_epoch() {
    let utc = TimeZone::UTC;
    let day = 86_400_000_000_000i128;
    assert_eq!(local_date(0, &utc), date(1970, 1, 1));
    assert_eq!(local_date(365 * day, &utc), date(1971, 1, 1));
    assert_eq!(local_date(-1, &utc), date(1969, 12, 31));
    assert_eq!(local_date(i128::MAX, &utc), date(1970, 1, 1));
    assert_eq!(local_date(i128::MIN, &utc), date(1970, 1, 1));
    let tokyo = TimeZone::get("Asia/Tokyo").expect("the zone exists");
    assert_eq!(local_date(20 * 3_600_000_000_000, &tokyo), date(1970, 1, 2));
}

#[test]
fn sections_list_every_session_in_order() {
    let utc = TimeZone::UTC;
    let day = 86_400_000_000_000i128;
    let now = 1000 * day;
    let sessions = [
        chat(5, now),
        chat(4, now - day / 2),
        chat(3, now - 3 * day),
        chat(2, now - 4 * day),
        chat(1, now - 900 * day),
    ];
    let sections = sections_in(&sessions, now, &utc);
    let flat: Vec<u64> = sections
        .iter()
        .flat_map(|section| section.chats.iter().map(|c| c.id))
        .collect();
    assert_eq!(flat, [5, 4, 3, 2, 1]);
    assert_eq!(sections.len(), 4);
    assert_eq!(sections[0].period, Period::Today);
    assert_eq!(sections[1].period, Period::Yesterday);
    assert_eq!(sections[2].period, Period::PreviousSevenDays);
    assert_eq!(sections[2].chats.len(), 2);
    assert_eq!(sections[2].chats[1].title, "Chat 2");
    assert_eq!(sections[3].period, Period::Year { year: 1970 });
    assert!(sections_in(&[], now, &utc).is_empty());
    let local = session_sections(&sessions, now);
    assert_eq!(
        local.iter().map(|s| s.chats.len()).sum::<usize>(),
        sessions.len()
    );
}

#[test]
fn period_titles() {
    assert_eq!(period_title(Period::Today).as_deref(), Some("Today"));
    assert_eq!(period_title(Period::Yesterday).as_deref(), Some("Yesterday"));
    assert_eq!(
        period_title(Period::PreviousSevenDays).as_deref(),
        Some("Previous 7 Days")
    );
    assert_eq!(
        period_title(Period::PreviousThirtyDays).as_deref(),
        Some("Previous 30 Days")
    );
    assert_eq!(period_title(Period::Month { month: 8 }), None);
    assert_eq!(period_title(Period::Year { year: 2025 }).as_deref(), Some("2025"));
    assert_eq!(period_title(Period::Year { year: -44 }).as_deref(), Some("-44"));
}

#[test]
fn local_dates_lie_within_a_day_of_the_instant() {
    let day = 86_400_000_000_000i128;
    let t = 12_345 * day + day / 2;
    let kiritimati = TimeZone::get("Pacific/Kiritimati").expect("the zone exists");
    let niue = TimeZone::get("Pacific/Niue").expect("the zone exists");
    assert_eq!(local_date(t, &kiritimati), date(2003, 10, 21));
    assert_eq!(local_date(t, &niue), date(2003, 10, 20));
    assert_eq!(local_date(t, &TimeZone::UTC), date(2003, 10, 20));
}
