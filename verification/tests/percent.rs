use wallpaper_controller::percent::{percent_of_totals, visibility_percent};
use wallpaper_controller::sample::{aggregate_percent, filter_samples, index_listed, VisibilitySample};

fn sample(monitor_index: i64, current_visible: i64, max_visible: i64) -> VisibilitySample {
    VisibilitySample {
        monitor_id: 7,
        monitor_index,
        current_visible,
        max_visible,
        total_area: max_visible,
    }
}

#[test]
fn percent_rounds_down() {
    assert_eq!(visibility_percent(10, 100), 10);
    assert_eq!(visibility_percent(90, 100), 90);
    assert_eq!(visibility_percent(1, 3), 33);
    assert_eq!(visibility_percent(2, 3), 66);
    assert_eq!(visibility_percent(199, 200), 99);
    assert_eq!(visibility_percent(29, 100), 29);
    assert_eq!(visibility_percent(57, 100), 57);
}

#[test]
fn percent_of_nothing_and_of_everything() {
    assert_eq!(visibility_percent(0, 1920 * 1080), 0);
    assert_eq!(visibility_percent(1920 * 1080, 1920 * 1080), 100);
}

#[test]
fn percent_without_area_is_zero() {
    assert_eq!(visibility_percent(50, 0), 0);
    assert_eq!(visibility_percent(0, 0), 0);
    assert_eq!(visibility_percent(50, -10), 0);
}

#[test]
fn percent_stays_within_a_byte() {
    assert_eq!(visibility_percent(-5, 100), 0);
    assert_eq!(visibility_percent(150, 100), 150);
    assert_eq!(visibility_percent(255, 100), 255);
    assert_eq!(visibility_percent(256, 100), 255);
    assert_eq!(visibility_percent(299, 100), 255);
    assert_eq!(visibility_percent(300, 100), 255);
    assert_eq!(visibility_percent(i64::MAX, 1), 255);
    assert_eq!(visibility_percent(i64::MIN, i64::MAX), 0);
}

#[test]
fn percent_of_the_largest_readings() {
    assert_eq!(visibility_percent(i64::MAX, i64::MAX), 100);
    assert_eq!(visibility_percent(i64::MAX / 2, i64::MAX), 49);
    assert_eq!(percent_of_totals(i128::MAX, i128::MAX), 100);
    assert_eq!(percent_of_totals(i128::MAX / 3, i128::MAX), 33);
    assert_eq!(percent_of_totals(i128::MAX - 1, i128::MAX), 99);
    assert_eq!(percent_of_totals(i128::MAX, i128::MAX / 2), 200);
    assert_eq!(percent_of_totals(i128::MIN, i128::MAX), 0);
    assert_eq!(percent_of_totals(1, i128::MIN), 0);
}

#[test]
fn percent_agrees_with_plain_division_on_small_values() {
    let mut max: i64 = 1;
    while max <= 60 {
        let mut current: i64 = -3;
        while current <= 200 {
            let exact = if current <= 0 { 0 } else { (current * 100 / max).min(255) };
            assert_eq!(visibility_percent(current, max) as i64, exact);
            current += 1;
        }
        max += 1;
    }
}

#[test]
fn aggregate_takes_all_samples_together() {
    assert_eq!(aggregate_percent(&vec![]), 0);
    assert_eq!(aggregate_percent(&vec![sample(1, 10, 100)]), 10);
    assert_eq!(aggregate_percent(&vec![sample(1, 30, 100), sample(2, 70, 100)]), 50);
    assert_eq!(aggregate_percent(&vec![sample(1, 0, 100), sample(2, 300, 300)]), 75);
    assert_eq!(aggregate_percent(&vec![sample(1, 5, 0), sample(2, 5, 0)]), 0);
}

#[test]
fn aggregate_does_not_overflow() {
    let full = sample(1, i64::MAX, i64::MAX);
    assert_eq!(aggregate_percent(&vec![full, full, full, full]), 100);
    let half = sample(1, i64::MAX / 2, i64::MAX);
    assert_eq!(aggregate_percent(&vec![half, half, half]), 49);
    assert_eq!(aggregate_percent(&vec![sample(1, i64::MIN, i64::MAX), sample(2, i64::MIN, 5)]), 0);
}

#[test]
fn filter_keeps_the_listed_monitors_in_order() {
    let samples = vec![sample(3, 1, 2), sample(1, 3, 4), sample(2, 5, 6), sample(1, 7, 8)];
    assert_eq!(filter_samples(&samples, &None), samples);
    assert_eq!(
        filter_samples(&samples, &Some(vec![1])),
        vec![sample(1, 3, 4), sample(1, 7, 8)]
    );
    assert_eq!(
        filter_samples(&samples, &Some(vec![2, 3])),
        vec![sample(3, 1, 2), sample(2, 5, 6)]
    );
    assert_eq!(filter_samples(&samples, &Some(vec![])), vec![]);
}

#[test]
fn filter_of_an_unlisted_monitor_leaves_nothing() {
    assert_eq!(filter_samples(&vec![sample(1, 10, 100)], &Some(vec![2])), vec![]);
}

#[test]
fn index_listed_finds_what_is_there() {
    assert!(index_listed(&vec![4, 5, 6], 6));
    assert!(!index_listed(&vec![4, 5, 6], 7));
    assert!(!index_listed(&vec![], 0));
}
