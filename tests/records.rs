use tray_pulse::badge::{badge_label, calculate_days, days_remaining, days_until, target_instant_ms};
use tray_pulse::records::{
    badge_title_at, find_by_id, first_pinned, pin, remove_id, upsert, CountdownRecord,
};

fn rec(id: &str, date: &str, pinned: bool, tag: u32) -> CountdownRecord<u32> {
    CountdownRecord {
        id: Some(id.to_string()),
        date: Some(date.to_string()),
        pinned,
        payload: tag,
    }
}

fn pins(list: &Vec<CountdownRecord<u32>>) -> Vec<bool> {
    list.iter().map(|r| r.pinned).collect()
}

fn tags(list: &Vec<CountdownRecord<u32>>) -> Vec<u32> {
    list.iter().map(|r| r.payload).collect()
}

#[test]
fn days_remaining_rounds_a_day_and_a_half_up() {
    let target = target_instant_ms("2099-01-01T00:00");
    let now = target_instant_ms("2098-12-30T12:00").unwrap();
    assert!(target.is_some());
    assert_eq!(target.unwrap() - now, 36 * 3600 * 1000);
    assert_eq!(days_remaining(target, now), 2);
}

#[test]
fn unparseable_date_counts_zero_days() {
    assert_eq!(target_instant_ms("not a date"), None);
    assert_eq!(target_instant_ms("2099-01-01"), None);
    assert_eq!(calculate_days("not a date", 0), 0);
    assert_eq!(days_remaining(None, 12345), 0);
}

#[test]
fn far_future_date_counts_positive_days() {
    let now = target_instant_ms("2026-10-18T12:00").unwrap();
    assert!(calculate_days("2999-01-01T00:00", now) > 300_000);
    assert!(calculate_days("1999-01-01T00:00", now) < 0);
    assert_eq!(calculate_days("2099-01-01T00:00", target_instant_ms("2098-12-30T12:00").unwrap()), 2);
}

#[test]
fn days_until_rounding() {
    let day = 86_400_000i64;
    assert_eq!(days_until(0, 0), 0);
    assert_eq!(days_until(3 * day + 3_600_000, 0), 4);
    assert_eq!(days_until(3 * day, 0), 3);
    assert_eq!(days_until(1000, 0), 1);
    assert_eq!(days_until(999, 0), 1);
    assert_eq!(days_until(1, 0), 1);
    assert_eq!(days_until(day + 500, 0), 2);
    assert_eq!(days_until(0, day + 500), -1);
    assert_eq!(days_until(0, day + day / 2), -1);
    assert_eq!(days_until(0, 3 * day), -3);
    assert_eq!(days_until(i64::MAX, i64::MIN), 213_503_982_335);
    assert_eq!(days_until(i64::MIN, i64::MAX), -213_503_982_334);
}

#[test]
fn local_instant_is_within_a_day_of_utc() {
    // 2099-01-01T00:00 UTC
    let utc = 4_070_908_800_000i64;
    let t = target_instant_ms("2099-01-01T00:00").unwrap();
    assert!((t - utc).abs() < 86_400_000);
    assert_eq!(target_instant_ms("2099-01-01T00:30").unwrap() - t, 30 * 60 * 1000);
}

#[test]
fn label_text() {
    assert_eq!(badge_label(2), "2\u{5929}");
    assert_eq!(badge_label(0), "0\u{5929}");
    assert_eq!(badge_label(-15), "-15\u{5929}");
    assert_eq!(badge_label(1234567890), "1234567890\u{5929}");
    assert_eq!(badge_label(i64::MAX), format!("{}\u{5929}", i64::MAX));
    assert_eq!(badge_label(i64::MIN), format!("{}\u{5929}", i64::MIN));
}

#[test]
fn pin_leaves_exactly_one_pinned() {
    let mut list = vec![
        rec("a", "2099-01-01T00:00", true, 1),
        rec("b", "2099-01-01T00:00", false, 2),
        rec("c", "2099-01-01T00:00", true, 3),
    ];
    pin(&mut list, &"b".to_string());
    assert_eq!(pins(&list), vec![false, true, false]);
    assert_eq!(tags(&list), vec![1, 2, 3]);
    assert_eq!(list[1].id.as_deref(), Some("b"));
}

#[test]
fn pin_of_duplicate_id_takes_the_first() {
    let mut list = vec![rec("x", "d", false, 1), rec("x", "d", false, 2)];
    pin(&mut list, &"x".to_string());
    assert_eq!(pins(&list), vec![true, false]);
}

#[test]
fn pin_of_unknown_id_unpins_all() {
    let mut list = vec![rec("a", "d", true, 1), rec("b", "d", true, 2)];
    pin(&mut list, &"zz".to_string());
    assert_eq!(pins(&list), vec![false, false]);
}

#[test]
fn upsert_replaces_or_appends() {
    let mut list = vec![rec("a", "d1", false, 1), rec("b", "d2", false, 2)];
    upsert(&mut list, rec("b", "d3", false, 20));
    assert_eq!(tags(&list), vec![1, 20]);
    assert_eq!(list[1].date.as_deref(), Some("d3"));
    upsert(&mut list, rec("c", "d4", false, 3));
    assert_eq!(tags(&list), vec![1, 20, 3]);
    upsert(&mut list, CountdownRecord { id: None, date: None, pinned: false, payload: 9 });
    assert_eq!(tags(&list), vec![1, 20, 3]);
}

#[test]
fn remove_drops_every_match() {
    let mut list = vec![rec("a", "d", false, 1), rec("b", "d", false, 2), rec("a", "d", false, 3)];
    remove_id(&mut list, &"a".to_string());
    assert_eq!(tags(&list), vec![2]);
    remove_id(&mut list, &"q".to_string());
    assert_eq!(tags(&list), vec![2]);
}

#[test]
fn lookups() {
    let list = vec![rec("a", "d", false, 1), rec("b", "d", true, 2), rec("b", "d", true, 3)];
    assert_eq!(find_by_id(&list, &"b".to_string()), Some(1));
    assert_eq!(find_by_id(&list, &"c".to_string()), None);
    assert_eq!(first_pinned(&list), Some(1));
    assert_eq!(first_pinned(&vec![rec("a", "d", false, 1)]), None);
}

#[test]
fn badge_title_of_pinned_record() {
    let now = target_instant_ms("2098-12-30T12:00").unwrap();
    let list = vec![
        rec("a", "2099-02-01T00:00", false, 1),
        rec("b", "2099-01-01T00:00", true, 2),
    ];
    assert_eq!(badge_title_at(&list, now), Some("2\u{5929}".to_string()));
}

#[test]
fn badge_title_empty_or_zero() {
    let now = 0i64;
    let none_pinned = vec![rec("a", "2099-01-01T00:00", false, 1)];
    assert_eq!(badge_title_at(&none_pinned, now), None);
    let no_date = vec![CountdownRecord { id: Some("a".to_string()), date: None, pinned: true, payload: 1u32 }];
    assert_eq!(badge_title_at(&no_date, now), None);
    let bad_date = vec![rec("a", "soon", true, 1)];
    assert_eq!(badge_title_at(&bad_date, now), Some("0\u{5929}".to_string()));
}
