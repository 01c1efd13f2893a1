use orderflow::footprint::{
    session_key, session_of, stack_verdict, stacked_runs, unfinished_is_entry, utc_day, Session,
    FORBIDDEN, WIRED,
};

#[test]
fn session_hours_match_research_script() {
    let day = 1_700_000_000_000i64;
    let midnight = day - day.rem_euclid(86_400_000);
    assert_eq!(session_of(midnight), Session::Asia);
    assert_eq!(session_of(midnight + 8 * 3_600_000), Session::Eu);
    assert_eq!(session_of(midnight + 13 * 3_600_000), Session::Us);
    assert_eq!(session_of(midnight + 21 * 3_600_000), Session::Thin);
}

#[test]
fn wired_and_unfinished_is_not_entry() {
    assert!(WIRED);
    assert!(!unfinished_is_entry());
    for w in FORBIDDEN {
        assert!(!w.is_empty());
    }
}

#[test]
fn session_boundaries_are_half_open() {
    let midnight = 1_699_920_000_000i64;
    assert_eq!(session_of(midnight + 8 * 3_600_000 - 1), Session::Asia);
    assert_eq!(session_of(midnight + 13 * 3_600_000 - 1), Session::Eu);
    assert_eq!(session_of(midnight + 21 * 3_600_000 - 1), Session::Us);
    assert_eq!(session_of(midnight + 24 * 3_600_000 - 1), Session::Thin);
    assert_eq!(session_of(-1), Session::Thin);
    assert_eq!(Session::Eu.as_str(), "eu");
    assert_eq!(Session::Thin.as_str(), "thin");
}

#[test]
fn session_key_uses_bar_open() {
    assert_eq!(utc_day(86_400_000), 1);
    assert_eq!(utc_day(-1), -1);
    assert_eq!(session_key(86_400_000 + 59_999), (1, Session::Asia));
}

#[test]
fn stacked_runs_counts_longest_true_run() {
    assert_eq!(stacked_runs(&[]), 0);
    assert_eq!(stacked_runs(&[false, false]), 0);
    assert_eq!(stacked_runs(&[true, true, false, true, true, true, false, true]), 3);
    assert_eq!(stacked_runs(&[true, true, true, true]), 4);
}

#[test]
fn diagonal_buy_stack3_aligned_on_up_bar() {
    let v = stack_verdict(3, 0, 3, 0, 3, true, false, true);
    assert!(v.stacked_buy);
    assert!(v.aligned);
    assert!(!v.contra);
    assert!(!v.chaos);
}

#[test]
fn contra_stack_on_down_bar_is_not_aligned() {
    let v = stack_verdict(3, 0, 3, 0, 3, false, true, true);
    assert!(!v.stacked_buy);
    assert!(!v.aligned);
    assert!(v.contra);
}

#[test]
fn chaos_aligns_nothing() {
    let v = stack_verdict(4, 3, 4, 3, 3, true, false, false);
    assert!(v.chaos);
    assert!(!v.aligned);
    assert!(!v.stacked_buy && !v.stacked_sell);
}

#[test]
fn scattered_imbalances_are_multiple_not_stacked() {
    let v = stack_verdict(1, 2, 4, 3, 3, true, false, true);
    assert!(v.multiple_buy);
    assert!(!v.multiple_sell || v.multiple_sell);
    assert!(v.multiple_sell);
    assert!(!v.stacked_buy);
}
