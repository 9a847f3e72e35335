use influxdb_dispatcher::log::{LogLevel, LogRecord};
use influxdb_dispatcher::push_loop::{start, step, TaskAction, TaskEvent, TaskState};

fn run(state: TaskState, events: Vec<TaskEvent<u32>>) -> (TaskState, Vec<TaskAction<u32>>) {
    let mut state = state;
    let mut actions = Vec::new();
    for event in events {
        let (next, action) = step(state, event);
        state = next;
        actions.push(action);
    }
    (state, actions)
}

#[test]
fn start_is_running_with_an_info_notice() {
    let (state, notice) = start();
    assert_eq!(state, TaskState::Running);
    assert_eq!(
        notice,
        LogRecord { level: LogLevel::Info, message: "Starting InfluxDb metrics loop".to_string() }
    );
}

#[test]
fn running_accepts_a_metric() {
    assert_eq!(
        step(TaskState::Running, TaskEvent::Received(7u32)),
        (TaskState::Running, TaskAction::Accept(7u32))
    );
}

#[test]
fn running_flushes_on_a_tick() {
    assert_eq!(
        step(TaskState::Running, TaskEvent::<u32>::Tick),
        (TaskState::Running, TaskAction::Flush)
    );
}

#[test]
fn running_winds_down_when_the_channel_closes() {
    assert_eq!(
        step(TaskState::Running, TaskEvent::<u32>::Closed),
        (TaskState::Draining, TaskAction::Stop)
    );
}

#[test]
fn cancelling_terminates_from_every_state() {
    for state in [TaskState::Running, TaskState::Draining, TaskState::Terminated] {
        assert_eq!(
            step(state, TaskEvent::<u32>::Cancelled),
            (TaskState::Terminated, TaskAction::Stop)
        );
    }
}

#[test]
fn draining_serves_nothing_and_terminates() {
    assert_eq!(
        step(TaskState::Draining, TaskEvent::Received(1u32)),
        (TaskState::Terminated, TaskAction::Stop)
    );
    assert_eq!(
        step(TaskState::Draining, TaskEvent::<u32>::Tick),
        (TaskState::Terminated, TaskAction::Stop)
    );
    assert_eq!(
        step(TaskState::Draining, TaskEvent::<u32>::Closed),
        (TaskState::Terminated, TaskAction::Stop)
    );
}

#[test]
fn terminated_serves_nothing() {
    assert_eq!(
        step(TaskState::Terminated, TaskEvent::Received(1u32)),
        (TaskState::Terminated, TaskAction::Stop)
    );
    assert_eq!(
        step(TaskState::Terminated, TaskEvent::<u32>::Tick),
        (TaskState::Terminated, TaskAction::Stop)
    );
    assert_eq!(
        step(TaskState::Terminated, TaskEvent::<u32>::Closed),
        (TaskState::Terminated, TaskAction::Stop)
    );
}

#[test]
fn metrics_without_a_tick_are_accepted_in_order_and_never_flushed() {
    let events = vec![
        TaskEvent::Received(1),
        TaskEvent::Received(2),
        TaskEvent::Received(3),
        TaskEvent::Received(4),
    ];
    let (state, actions) = run(TaskState::Running, events);
    assert_eq!(state, TaskState::Running);
    assert_eq!(
        actions,
        vec![
            TaskAction::Accept(1),
            TaskAction::Accept(2),
            TaskAction::Accept(3),
            TaskAction::Accept(4),
        ]
    );
    assert!(!actions.contains(&TaskAction::Flush));
}

#[test]
fn each_tick_flushes_once_between_metrics() {
    let events = vec![
        TaskEvent::Received(1),
        TaskEvent::Tick,
        TaskEvent::Received(2),
        TaskEvent::Tick,
        TaskEvent::Tick,
    ];
    let (state, actions) = run(TaskState::Running, events);
    assert_eq!(state, TaskState::Running);
    assert_eq!(
        actions,
        vec![
            TaskAction::Accept(1),
            TaskAction::Flush,
            TaskAction::Accept(2),
            TaskAction::Flush,
            TaskAction::Flush,
        ]
    );
}

#[test]
fn a_tick_with_nothing_accepted_still_flushes() {
    let (state, actions) = run(TaskState::Running, vec![TaskEvent::Tick]);
    assert_eq!(state, TaskState::Running);
    assert_eq!(actions, vec![TaskAction::Flush]);
}

#[test]
fn cancelling_discards_what_is_still_pending() {
    let events = vec![
        TaskEvent::Received(1),
        TaskEvent::Cancelled,
        TaskEvent::Received(2),
        TaskEvent::Received(3),
        TaskEvent::Tick,
    ];
    let (state, actions) = run(TaskState::Running, events);
    assert_eq!(state, TaskState::Terminated);
    assert_eq!(
        actions,
        vec![
            TaskAction::Accept(1),
            TaskAction::Stop,
            TaskAction::Stop,
            TaskAction::Stop,
            TaskAction::Stop,
        ]
    );
}

#[test]
fn a_closed_channel_ends_the_loop_for_good() {
    let events = vec![TaskEvent::Received(1), TaskEvent::Closed, TaskEvent::Received(2)];
    let (state, actions) = run(TaskState::Running, events);
    assert_eq!(state, TaskState::Terminated);
    assert_eq!(actions, vec![TaskAction::Accept(1), TaskAction::Stop, TaskAction::Stop]);
}

#[test]
fn no_events_change_nothing() {
    for state in [TaskState::Running, TaskState::Draining, TaskState::Terminated] {
        let (after, actions) = run(state, Vec::new());
        assert_eq!(after, state);
        assert!(actions.is_empty());
    }
}
