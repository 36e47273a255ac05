use erlang_actors_rust::restart_window::{RestartWindow, NANOS_PER_SEC};

#[test]
fn window_allows_as_many_restarts_as_the_limit() {
    let mut window = RestartWindow::new(3, 10);
    assert!(window.record(0));
    assert!(window.record(1));
    assert!(window.record(2));
    assert!(!window.record(3));
}

#[test]
fn window_slides() {
    let mut window = RestartWindow::new(2, 10);
    assert!(window.record(0));
    assert!(window.record(5 * NANOS_PER_SEC));
    assert!(window.record(10 * NANOS_PER_SEC));
    assert!(window.record(15 * NANOS_PER_SEC));
    assert!(!window.record(16 * NANOS_PER_SEC));
}

#[test]
fn window_of_no_length_holds_one_restart() {
    let mut window = RestartWindow::new(1, 0);
    for _ in 0..10 {
        assert!(window.record(42));
    }
    let mut closed = RestartWindow::new(0, 0);
    assert!(!closed.record(42));
}

#[test]
fn window_keeps_times_that_lie_ahead() {
    let mut window = RestartWindow::new(1, 1);
    assert!(window.record(100 * NANOS_PER_SEC));
    assert!(!window.record(0));
}

#[test]
fn longest_window_never_forgets() {
    let mut window = RestartWindow::new(1, u64::MAX);
    assert!(window.record(0));
    assert!(!window.record(u64::MAX as u128));
}

#[test]
fn allowed_restarts_in_a_row_take_the_length_of_the_window() {
    let mut window = RestartWindow::new(3, 1);
    let mut allowed: Vec<u128> = Vec::new();
    let mut now: u128 = 0;
    for round in 0..500u128 {
        now += (round * 37 % 11) * NANOS_PER_SEC / 20;
        if !window.record(now) {
            window = RestartWindow::new(3, 1);
            allowed.clear();
            continue;
        }
        allowed.push(now);
        let n = allowed.len();
        if n > 3 {
            assert!(allowed[n - 1] - allowed[n - 4] >= NANOS_PER_SEC);
        }
    }
}
