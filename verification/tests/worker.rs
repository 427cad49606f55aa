use http_server::worker::{JobOutcome, JoinOutcome, Worker, WorkerEvent, WorkerState};

const STATES: [WorkerState; 4] = [
    WorkerState::Running,
    WorkerState::Executing,
    WorkerState::Terminated,
    WorkerState::Panicked,
];

const EVENTS: [WorkerEvent; 4] = [
    WorkerEvent::Dequeued,
    WorkerEvent::Closed,
    WorkerEvent::Completed,
    WorkerEvent::Panicked,
];

#[test]
fn new_worker_waits_and_is_joinable() {
    let worker = Worker::new(3);
    assert_eq!(worker.id, 3);
    assert_eq!(worker.state, WorkerState::Running);
    assert!(worker.joinable);
}

#[test]
fn worker_runs_a_job_and_waits_again() {
    let mut worker = Worker::new(0);
    assert!(worker.step(WorkerEvent::Dequeued));
    assert_eq!(worker.state, WorkerState::Executing);
    assert!(worker.step(WorkerEvent::Completed));
    assert_eq!(worker.state, WorkerState::Running);
    assert_eq!(worker.id, 0);
    assert!(worker.joinable);
}

#[test]
fn worker_terminates_on_closure() {
    let mut worker = Worker::new(1);
    assert!(worker.step(WorkerEvent::Closed));
    assert_eq!(worker.state, WorkerState::Terminated);
}

#[test]
fn worker_is_lost_when_its_job_panics() {
    let mut worker = Worker::new(1);
    assert!(worker.step(WorkerEvent::Dequeued));
    assert!(worker.step(WorkerEvent::Panicked));
    assert_eq!(worker.state, WorkerState::Panicked);
}

#[test]
fn every_transition_of_the_worker() {
    for state in STATES {
        for event in EVENTS {
            let expected = match (state, event) {
                (WorkerState::Running, WorkerEvent::Dequeued) => Some(WorkerState::Executing),
                (WorkerState::Running, WorkerEvent::Closed) => Some(WorkerState::Terminated),
                (WorkerState::Executing, WorkerEvent::Completed) => Some(WorkerState::Running),
                (WorkerState::Executing, WorkerEvent::Panicked) => Some(WorkerState::Panicked),
                _ => None,
            };
            let mut worker = Worker { id: 5, state, joinable: true };
            let moved = worker.step(event);
            assert_eq!(moved, expected.is_some());
            assert_eq!(worker.state, expected.unwrap_or(state));
            assert_eq!(worker.id, 5);
            assert!(worker.joinable);
        }
    }
}

#[test]
fn finished_states_are_absorbing() {
    for state in [WorkerState::Terminated, WorkerState::Panicked] {
        for event in EVENTS {
            let mut worker = Worker { id: 0, state, joinable: true };
            assert!(!worker.step(event));
            assert_eq!(worker.state, state);
        }
    }
}

#[test]
fn is_finished_tells_ended_threads() {
    assert!(!WorkerState::Running.is_finished());
    assert!(!WorkerState::Executing.is_finished());
    assert!(WorkerState::Terminated.is_finished());
    assert!(WorkerState::Panicked.is_finished());
}

#[test]
fn job_outcomes_map_to_events() {
    assert_eq!(JobOutcome::Completed.as_event(), WorkerEvent::Completed);
    assert_eq!(JobOutcome::Panicked.as_event(), WorkerEvent::Panicked);
}

#[test]
fn join_reports_how_the_thread_ended() {
    let mut stopped = Worker { id: 0, state: WorkerState::Terminated, joinable: true };
    assert_eq!(stopped.join(), Some(JoinOutcome::Stopped));
    assert!(!stopped.joinable);
    assert_eq!(stopped.state, WorkerState::Terminated);

    let mut panicked = Worker { id: 1, state: WorkerState::Panicked, joinable: true };
    assert_eq!(panicked.join(), Some(JoinOutcome::Panicked));
    assert!(!panicked.joinable);
    assert_eq!(panicked.state, WorkerState::Panicked);
}

#[test]
fn join_happens_once() {
    let mut worker = Worker { id: 0, state: WorkerState::Terminated, joinable: true };
    assert_eq!(worker.join(), Some(JoinOutcome::Stopped));
    assert_eq!(worker.join(), None);
    assert!(!worker.joinable);
}

#[test]
fn join_does_not_take_a_live_worker() {
    for state in [WorkerState::Running, WorkerState::Executing] {
        let mut worker = Worker { id: 2, state, joinable: true };
        assert_eq!(worker.join(), None);
        assert!(worker.joinable);
        assert_eq!(worker.state, state);
    }
}
