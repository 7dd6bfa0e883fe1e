use innards::MAX_ITERATIONS;
use innards::escape_step;

#[test]
fn budget_is_nine_hundred() {
    assert_eq!(MAX_ITERATIONS, 900);
}

#[test]
fn escape_step_counts_and_continues() {
    assert_eq!(escape_step(0, false), (1, true));
    assert_eq!(escape_step(17, false), (18, true));
}

#[test]
fn escape_step_stops_on_escape() {
    assert_eq!(escape_step(0, true), (1, false));
    assert_eq!(escape_step(450, true), (451, false));
}

#[test]
fn escape_step_stops_at_budget() {
    assert_eq!(escape_step(898, false), (899, true));
    assert_eq!(escape_step(899, false), (900, false));
    assert_eq!(escape_step(899, true), (900, false));
}

#[test]
fn full_run_is_deterministic_and_bounded() {
    // Drive the loop control the way the renderer's driver does, with the
    // radius test never tripping: the count walks the whole budget.
    let mut iterations: u32 = 0;
    let mut go = true;
    while go {
        let (next, keep_going) = escape_step(iterations, false);
        iterations = next;
        go = keep_going;
    }
    assert_eq!(iterations, MAX_ITERATIONS);

    // Escaping on the third round stops the loop at a count of 3.
    let mut iterations: u32 = 0;
    let mut go = true;
    let mut rounds = 0;
    while go {
        rounds += 1;
        let (next, keep_going) = escape_step(iterations, rounds == 3);
        iterations = next;
        go = keep_going;
    }
    assert_eq!(iterations, 3);
}
