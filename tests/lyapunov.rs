use attractor_search::lyapunov::{Outcome, Phase, Schedule, Task, Tracker};

/// Answers every task with `Fine` and returns the tasks asked for.
fn run_fine(s: Schedule) -> (Tracker, Vec<Task>) {
    let mut t = Tracker::new(s);
    let mut tasks = Vec::new();
    loop {
        let task = t.task();
        if task == Task::Stop {
            return (t, tasks);
        }
        tasks.push(task);
        t.advance(Outcome::Fine);
    }
}

#[test]
fn schedule_rejects_zero_interval() {
    assert!(Schedule::new(1, 1, 0).is_none());
    assert_eq!(
        Schedule::new(2, 3, 4),
        Some(Schedule { transient: 2, steps: 3, interval: 4 })
    );
}

#[test]
fn fast_path_renormalizes_every_step() {
    let (t, tasks) = run_fine(Schedule::every_step(2, 5));
    assert_eq!(tasks.len(), 7);
    assert_eq!(tasks[0], Task::StepState);
    assert_eq!(tasks[1], Task::StepState);
    for k in 2..7 {
        assert_eq!(tasks[k], Task::StepTangent { renormalize: true });
    }
    assert_eq!(t.finished(), Some(5));
}

#[test]
fn checkpoints_every_interval() {
    let (t, tasks) = run_fine(Schedule::new(3, 25, 10).unwrap());
    assert_eq!(tasks.len(), 28);
    let renorms: Vec<usize> = (0..25)
        .filter(|&k| tasks[3 + k] == Task::StepTangent { renormalize: true })
        .collect();
    assert_eq!(renorms, vec![9, 19]);
    assert_eq!(t.phase, Phase::Finished { checkpoints: 2 });
    assert_eq!(t.finished(), Some(2));
}

#[test]
fn fewer_steps_than_interval_fails() {
    let (t, tasks) = run_fine(Schedule::new(0, 9, 10).unwrap());
    assert_eq!(tasks.len(), 9);
    assert_eq!(t.phase, Phase::Failed);
    assert_eq!(t.finished(), None);
}

#[test]
fn no_steps_fails() {
    let (t, tasks) = run_fine(Schedule::new(4, 0, 10).unwrap());
    assert_eq!(tasks.len(), 4);
    assert_eq!(t.phase, Phase::Failed);
}

#[test]
fn escape_fails() {
    let mut t = Tracker::new(Schedule::new(2, 20, 10).unwrap());
    t.advance(Outcome::Fine);
    t.advance(Outcome::Escaped);
    assert_eq!(t.phase, Phase::Failed);
    t.advance(Outcome::Fine);
    assert_eq!(t.phase, Phase::Failed);
    assert_eq!(t.task(), Task::Stop);
}

#[test]
fn degenerate_vector_fails() {
    let mut t = Tracker::new(Schedule::new(0, 20, 10).unwrap());
    for _ in 0..9 {
        t.advance(Outcome::Fine);
    }
    assert_eq!(t.task(), Task::StepTangent { renormalize: true });
    t.advance(Outcome::Degenerate);
    assert_eq!(t.phase, Phase::Failed);
}

#[test]
fn escape_in_last_step_fails() {
    let mut t = Tracker::new(Schedule::new(0, 10, 10).unwrap());
    for _ in 0..9 {
        t.advance(Outcome::Fine);
    }
    t.advance(Outcome::Escaped);
    assert_eq!(t.finished(), None);
}
