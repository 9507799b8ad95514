use gamebench_fyrox::population::{
    plan_population, spawn_progress_due, PopulationStep, MAX_SPAWNS_PER_FRAME,
};

fn run_frame(count: usize, target: usize) -> usize {
    let step = plan_population(count, target);
    count - step.remove + step.spawn
}

#[test]
fn spawns_at_most_twenty_five_per_frame() {
    assert_eq!(plan_population(0, 100), PopulationStep { remove: 0, spawn: 25 });
    assert_eq!(MAX_SPAWNS_PER_FRAME, 25);
    assert_eq!(plan_population(90, 100), PopulationStep { remove: 0, spawn: 10 });
    assert_eq!(plan_population(100, 100), PopulationStep { remove: 0, spawn: 0 });
}

#[test]
fn removes_the_excess_at_once() {
    assert_eq!(plan_population(300, 100), PopulationStep { remove: 200, spawn: 0 });
    assert_eq!(plan_population(5, 0), PopulationStep { remove: 5, spawn: 0 });
}

#[test]
fn reaches_target_in_expected_frames() {
    let mut count = 0;
    let mut frames = 0;
    while count != 5000 {
        count = run_frame(count, 5000);
        frames += 1;
        assert!(count <= 5000);
    }
    assert_eq!(frames, 200);
    assert_eq!(run_frame(count, 5000), 5000);
    let mut c = 10;
    let mut f = 0;
    while c != 111 {
        c = run_frame(c, 111);
        f += 1;
    }
    assert_eq!(f, 5);
    assert_eq!(run_frame(4000, 100), 100);
}

#[test]
fn progress_report_marks() {
    assert!(spawn_progress_due(1000, 5000, 25));
    assert!(spawn_progress_due(1510, 5000, 25));
    assert!(!spawn_progress_due(1525, 5000, 25));
    assert!(!spawn_progress_due(500, 900, 25));
    assert!(!spawn_progress_due(1000, 5000, 0));
}
