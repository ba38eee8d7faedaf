//! Progress indicators: the exact control bytes asked for at each step.

use ao3dl::progress::{IndeterminateProgressBar, ProgressBar};

#[test]
fn an_active_bar_emits_updates_and_a_clear() {
    let mut pb = ProgressBar::new(true, 4);
    assert_eq!(pb.begin(), Some(b"\x1b]9;4;1;0\x07".to_vec()));
    assert_eq!(pb.next(), Some(b"\x1b]9;4;1;25\x07".to_vec()));
    assert_eq!(pb.next(), Some(b"\x1b]9;4;1;50\x07".to_vec()));
    assert_eq!(pb.next(), Some(b"\x1b]9;4;1;75\x07".to_vec()));
    assert_eq!(pb.next(), Some(b"\x1b]9;4;1;100\x07".to_vec()));
    assert_eq!(pb.end(), Some(b"\x1b]9;4;0\x07".to_vec()));
}

#[test]
fn an_inactive_bar_emits_nothing() {
    let mut pb = ProgressBar::new(false, 2);
    assert_eq!(pb.begin(), None);
    assert_eq!(pb.next(), None);
    assert_eq!(pb.end(), None);
}

#[test]
fn a_broken_bar_goes_quiet() {
    let mut pb = ProgressBar::new(true, 2);
    assert!(pb.begin().is_some());
    pb.set_broken();
    assert_eq!(pb.next(), None);
    assert_eq!(pb.end(), None);
}

#[test]
fn ending_twice_clears_only_once() {
    let mut pb = ProgressBar::new(true, 1);
    assert!(pb.end().is_some());
    assert_eq!(pb.end(), None);
}

#[test]
fn the_indeterminate_indicator_spins_and_clears() {
    let mut pb = IndeterminateProgressBar::new(true);
    assert_eq!(pb.begin(), Some(b"\x1b]9;4;3\x07".to_vec()));
    assert_eq!(pb.end(), Some(b"\x1b]9;4;0\x07".to_vec()));
    assert_eq!(pb.end(), None);

    let mut quiet = IndeterminateProgressBar::new(false);
    assert_eq!(quiet.begin(), None);
    assert_eq!(quiet.end(), None);
}
