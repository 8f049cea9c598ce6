use arkiv_katalog::scroll::{ScrollAccumulator, ScrollStep};

#[test]
fn two_small_deltas_cross_one_boundary() {
    let mut acc = ScrollAccumulator::new();
    assert_eq!(acc.step(30, 50), ScrollStep::Stationary);
    assert_eq!(acc.residual(), 30);
    assert_eq!(acc.step(30, 50), ScrollStep::Forward);
    assert_eq!(acc.residual(), 10);
}

#[test]
fn negative_deltas_report_one_backward_step() {
    let mut acc = ScrollAccumulator::new();
    assert_eq!(acc.step(-10, 50), ScrollStep::Backward);
    assert_eq!(acc.residual(), 40);
    let mut acc = ScrollAccumulator::new();
    assert_eq!(acc.step(10, 50), ScrollStep::Stationary);
    assert_eq!(acc.step(-10, 50), ScrollStep::Stationary);
    assert_eq!(acc.residual(), 0);
    assert_eq!(acc.step(-55, 50), ScrollStep::Backward);
    assert_eq!(acc.residual(), 45);
}

#[test]
fn several_boundaries_are_one_step() {
    let mut acc = ScrollAccumulator::new();
    assert_eq!(acc.step(170, 50), ScrollStep::Forward);
    assert_eq!(acc.residual(), 20);
    assert_eq!(acc.step(-170, 50), ScrollStep::Backward);
    assert_eq!(acc.residual(), 0);
}

#[test]
fn zero_delta_changes_nothing() {
    let mut acc = ScrollAccumulator::new();
    for _ in 0..5 {
        assert_eq!(acc.step(0, 50), ScrollStep::Stationary);
        assert_eq!(acc.residual(), 0);
    }
    assert_eq!(acc.step(37, 50), ScrollStep::Stationary);
    for _ in 0..5 {
        assert_eq!(acc.step(0, 50), ScrollStep::Stationary);
        assert_eq!(acc.residual(), 37);
    }
}

#[test]
fn exact_multiples_leave_no_residual() {
    let mut acc = ScrollAccumulator::new();
    assert_eq!(acc.step(50, 50), ScrollStep::Forward);
    assert_eq!(acc.residual(), 0);
    assert_eq!(acc.step(-100, 50), ScrollStep::Backward);
    assert_eq!(acc.residual(), 0);
    assert_eq!(acc.step(-1, 50), ScrollStep::Backward);
    assert_eq!(acc.residual(), 49);
}

#[test]
fn extreme_deltas_do_not_overflow() {
    let mut acc = ScrollAccumulator::new();
    assert_eq!(acc.step(i32::MIN, u32::MAX), ScrollStep::Backward);
    assert_eq!(acc.residual(), u32::MAX - (1u32 << 31));
    assert_eq!(acc.step(i32::MAX, 1), ScrollStep::Forward);
    assert_eq!(acc.residual(), 0);
    assert_eq!(acc.step(i32::MIN, 1), ScrollStep::Backward);
    assert_eq!(acc.residual(), 0);
}

#[test]
fn nothing_is_lost_over_many_calls() {
    let deltas: [i32; 8] = [7, 13, -40, 99, -3, 250, -251, 0];
    let mut acc = ScrollAccumulator::new();
    let mut total: i64 = 0;
    for delta in deltas {
        acc.step(delta, 50);
        total += i64::from(delta);
        assert_eq!(i64::from(acc.residual()), total.rem_euclid(50));
    }
}
