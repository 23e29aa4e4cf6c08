use dns_loadgen::verbosity::Verbosity;

#[test]
fn level_zero_prints_the_summary_only() {
    let v = Verbosity::new(0);
    assert!(!v.progress());
    assert!(!v.detail());
}

#[test]
fn level_one_prints_progress() {
    let v = Verbosity::new(1);
    assert!(v.progress());
    assert!(!v.detail());
}

#[test]
fn level_two_and_above_print_details_too() {
    for level in [2u32, 3, 100, u32::MAX] {
        let v = Verbosity::new(level);
        assert!(v.progress());
        assert!(v.detail());
    }
}
