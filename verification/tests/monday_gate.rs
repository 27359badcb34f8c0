use defa_protocol::psp_pool::day_of_week;

#[test]
fn test_dummy() {
    assert_eq!(2 + 2, 4);
}

#[test]
fn test_monday_gate_known_dates() {
    // 1704067200 = Monday 2024-01-01 00:00:00 UTC
    let monday = 1704067200;
    let tuesday = monday + 86400;
    let sunday = monday + 6 * 86400;
    let next_monday = monday + 7 * 86400;

    assert_eq!(day_of_week(monday), 1, "Monday should be 1");
    assert_eq!(day_of_week(tuesday), 2, "Tuesday should be 2");
    assert_eq!(day_of_week(sunday), 0, "Sunday should be 0");
    assert_eq!(day_of_week(next_monday), 1, "Next Monday should be 1");
}

#[test]
fn epoch_was_a_thursday() {
    assert_eq!(day_of_week(0), 4);
    assert_eq!(day_of_week(86_399), 4);
    assert_eq!(day_of_week(86_400), 5);
}

#[test]
fn day_of_week_repeats_weekly() {
    let t = 1_700_000_000u64;
    for k in 0..20u64 {
        assert_eq!(day_of_week(t + k * 604_800), day_of_week(t));
    }
}

#[test]
fn next_day_follows_in_the_week() {
    let t = 1_704_067_200u64;
    for k in 0..14u64 {
        let d = day_of_week(t + k * 86_400);
        assert_eq!(day_of_week(t + (k + 1) * 86_400), (d + 1) % 7);
    }
}
