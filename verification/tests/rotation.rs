use drakeema::civil::CivilTime;
use drakeema::error::Error;
use drakeema::rotation::{Cycle, Granularity, Item, Transition};

fn c(y: i32, mo: u8, d: u8, h: u8, mi: u8, s: u8) -> CivilTime {
    CivilTime::new(y, mo, d, h, mi, s).unwrap()
}

fn item(id: &str, weight: i64) -> Item {
    Item { identifier: id.to_string(), weight }
}

fn hour_cycle() -> Cycle {
    Cycle::new(
        c(2020, 6, 5, 15, 0, 0),
        vec![item("juga", 60), item("tekki", 60), item("zoma", 60), item("kaiyo", 60)],
        Granularity::FixedDuration,
    )
    .unwrap()
}

#[test]
fn fixed_duration_boundary_exactness() {
    // Items of sixty minutes each, starting at 15:00: each boundary
    // instant belongs to the slot it opens, and the instant before the
    // reference belongs to the last item.
    let cycle = hour_cycle();

    assert_eq!(cycle.resolve(&c(2020, 6, 5, 15, 0, 0)).current.identifier, "juga");
    assert_eq!(cycle.resolve(&c(2020, 6, 5, 15, 59, 59)).current.identifier, "juga");
    assert_eq!(cycle.resolve(&c(2020, 6, 5, 16, 0, 0)).current.identifier, "tekki");
    assert_eq!(cycle.resolve(&c(2020, 6, 5, 14, 59, 59)).current.identifier, "kaiyo");
}

#[test]
fn fixed_duration_periodicity() {
    // A whole cycle of four hours forward or backward keeps the item.
    let cycle = hour_cycle();

    assert_eq!(cycle.resolve(&c(2020, 6, 5, 16, 30, 0)).current.identifier, "tekki");
    assert_eq!(cycle.resolve(&c(2020, 6, 5, 20, 30, 0)).current.identifier, "tekki");
    assert_eq!(cycle.resolve(&c(2020, 6, 5, 12, 30, 0)).current.identifier, "tekki");
    assert_eq!(cycle.resolve(&c(2020, 6, 5, 16, 30, 0)).lap, 0);
    assert_eq!(cycle.resolve(&c(2020, 6, 5, 20, 30, 0)).lap, 1);
    assert_eq!(cycle.resolve(&c(2020, 6, 5, 12, 30, 0)).lap, -1);
}

#[test]
fn fixed_duration_next_and_remaining() {
    let cycle = hour_cycle();

    let st = cycle.resolve(&c(2020, 6, 5, 15, 10, 0));
    assert_eq!(st.current.identifier, "juga");
    assert_eq!(st.next.identifier, "tekki");
    assert_eq!(st.remaining, 50);

    let st = cycle.resolve(&c(2020, 6, 5, 18, 59, 0));
    assert_eq!(st.current.identifier, "kaiyo");
    assert_eq!(st.next.identifier, "juga");
    assert_eq!(st.remaining, 1);
}

#[test]
fn empty_cycle_is_refused() {
    let r = Cycle::new(c(2020, 6, 5, 15, 0, 0), vec![], Granularity::FixedDuration);
    assert!(matches!(r, Err(Error::InvalidScheduleConfig)));
}

#[test]
fn non_positive_duration_is_refused() {
    let r = Cycle::new(
        c(2020, 6, 5, 15, 0, 0),
        vec![item("juga", 0)],
        Granularity::FixedDuration,
    );
    assert!(matches!(r, Err(Error::InvalidScheduleConfig)));
}

#[test]
fn transition_classification_is_exact() {
    // A three-day step cycle: the first day of a span classifies as the
    // start, the last as the end, the middle as neither.
    let cycle = Cycle::new(
        c(2025, 2, 1, 6, 0, 0),
        vec![item("a", 0), item("b", 0), item("c", 0)],
        Granularity::ElapsedDays { step_days: 3 },
    )
    .unwrap();

    assert_eq!(cycle.classify(&c(2025, 2, 1, 12, 0, 0)), Transition::Start);
    assert_eq!(cycle.classify(&c(2025, 2, 2, 12, 0, 0)), Transition::Mid);
    assert_eq!(cycle.classify(&c(2025, 2, 3, 12, 0, 0)), Transition::End);
    assert_eq!(cycle.classify(&c(2025, 2, 4, 12, 0, 0)), Transition::Start);
}

#[test]
fn try_resolve_surfaces_broken_invariants() {
    let good = hour_cycle();
    assert!(good.try_resolve(&c(2020, 6, 5, 15, 30, 0)).is_ok());

    // A cycle whose invariant was broken after construction is refused
    // explicitly, never resolved to a default item.
    let bad = Cycle {
        reference: c(2020, 6, 5, 15, 0, 0),
        items: vec![],
        granularity: Granularity::FixedDuration,
    };
    assert!(matches!(
        bad.try_resolve(&c(2020, 6, 5, 15, 30, 0)),
        Err(Error::ScheduleInvariantViolated)
    ));
}

#[test]
fn checked_hour_addition_guards_the_range() {
    let near_top = c(9998, 12, 31, 23, 0, 0);
    assert_eq!(
        near_top.checked_plus_hours(2),
        Err(drakeema::error::Error::TemporalRangeExceeded)
    );
    assert_eq!(c(2024, 7, 1, 6, 0, 0).checked_plus_hours(120), Ok(c(2024, 7, 6, 6, 0, 0)));
}

#[test]
fn month_cycle_wraps_sign_correctly() {
    let cycle = Cycle::new(
        c(2020, 7, 10, 6, 0, 0),
        vec![item("t1", 0), item("t2", 0), item("t3", 0)],
        Granularity::ElapsedMonths,
    )
    .unwrap();

    assert_eq!(cycle.resolve(&c(2020, 7, 10, 6, 0, 0)).current.identifier, "t1");
    assert_eq!(cycle.resolve(&c(2020, 7, 10, 5, 59, 59)).current.identifier, "t3");
    assert_eq!(cycle.resolve(&c(2020, 7, 10, 5, 59, 59)).lap, -1);
    assert_eq!(cycle.resolve(&c(2020, 10, 10, 6, 0, 0)).current.identifier, "t1");
    assert_eq!(cycle.resolve(&c(2020, 10, 10, 6, 0, 0)).lap, 1);
}
