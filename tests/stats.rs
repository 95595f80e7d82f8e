use foundation_api::stats::{query_window, TimeSelection, TimeSelectionStore};

#[test]
fn windows_have_their_lengths() {
    assert_eq!(TimeSelection::TwoDays.duration_seconds(), 2 * 86_400);
    assert_eq!(TimeSelection::Week.duration_seconds(), 7 * 86_400);
    assert_eq!(TimeSelection::Month.duration_seconds(), 30 * 86_400);
    assert_eq!(TimeSelection::ThreeMonths.duration_seconds(), 90 * 86_400);
    assert_eq!(TimeSelection::Year.duration_seconds(), 365 * 86_400);
    assert_eq!(TimeSelection::all().len(), 5);
}

#[test]
fn query_samples_the_window_at_fixed_points() {
    let now: i128 = 1_700_000_000_000_000_000;
    let q = query_window(TimeSelection::TwoDays, now);
    assert_eq!(q.end_nanos, now);
    assert_eq!(q.start_nanos, now - 172_800_000_000_000);
    assert_eq!(q.step_nanos, 172_800_000_000_000 / 255);
}

#[test]
fn store_hands_out_the_slot_of_each_window() {
    let store = TimeSelectionStore { two_days: 1, week: 2, month: 3, three_months: 4, year: 5 };
    let got: Vec<i32> = TimeSelection::all().iter().map(|s| *store.get(*s)).collect();
    assert_eq!(got, vec![1, 2, 3, 4, 5]);
}
