use joshu_relay::supervisor::{
    Action, Event, Phase, PipeStatus, Supervisor, WorkerStatus, MAX_ATTEMPTS,
};

fn deliver(sup: &mut Supervisor) {
    assert_eq!(sup.step(Event::Wrote(true)), Action::Delivered);
}

#[test]
fn first_message_spawns_opens_and_writes() {
    let mut sup = Supervisor::new();
    assert_eq!(sup.step(Event::Message { exited: false }), Action::Spawn);
    assert_eq!(sup.step(Event::Spawned(true)), Action::OpenPipe);
    assert_eq!(sup.step(Event::Opened(true)), Action::Write);
    deliver(&mut sup);
    assert_eq!(sup.worker, WorkerStatus::Running);
    assert_eq!(sup.pipe, PipeStatus::Open);
    assert_eq!(sup.phase, Phase::Idle);
}

#[test]
fn live_worker_is_written_directly() {
    let mut sup = Supervisor::new();
    sup.step(Event::Message { exited: false });
    sup.step(Event::Spawned(true));
    sup.step(Event::Opened(true));
    deliver(&mut sup);
    assert_eq!(sup.step(Event::Message { exited: false }), Action::Write);
    deliver(&mut sup);
}

#[test]
fn killed_worker_is_respawned_once() {
    let mut sup = Supervisor::new();
    sup.step(Event::Message { exited: false });
    sup.step(Event::Spawned(true));
    sup.step(Event::Opened(true));
    deliver(&mut sup);
    assert_eq!(sup.step(Event::Message { exited: true }), Action::Spawn);
    assert_eq!(sup.step(Event::Spawned(true)), Action::OpenPipe);
    assert_eq!(sup.pipe, PipeStatus::Invalid);
    assert_eq!(sup.step(Event::Opened(true)), Action::Write);
    deliver(&mut sup);
    assert_eq!(sup.step(Event::Message { exited: false }), Action::Write);
}

#[test]
fn failed_spawn_backs_off_then_retries() {
    let mut sup = Supervisor::new();
    sup.step(Event::Message { exited: false });
    assert_eq!(sup.step(Event::Spawned(false)), Action::Backoff(250));
    assert_eq!(sup.step(Event::Waited { exited: false }), Action::Spawn);
    assert_eq!(sup.step(Event::Spawned(false)), Action::Backoff(500));
    assert_eq!(sup.step(Event::Waited { exited: false }), Action::Spawn);
    assert_eq!(sup.step(Event::Spawned(true)), Action::OpenPipe);
}

#[test]
fn failed_write_reopens_the_pipe() {
    let mut sup = Supervisor::new();
    sup.step(Event::Message { exited: false });
    sup.step(Event::Spawned(true));
    sup.step(Event::Opened(true));
    assert_eq!(sup.step(Event::Wrote(false)), Action::Backoff(250));
    assert_eq!(sup.pipe, PipeStatus::Invalid);
    assert_eq!(sup.step(Event::Waited { exited: true }), Action::Spawn);
    assert_eq!(sup.step(Event::Spawned(true)), Action::OpenPipe);
    assert_eq!(sup.step(Event::Opened(false)), Action::Backoff(500));
    assert_eq!(sup.step(Event::Waited { exited: false }), Action::OpenPipe);
}

#[test]
fn message_is_dropped_after_too_many_failures() {
    let mut sup = Supervisor::new();
    sup.step(Event::Message { exited: false });
    for i in 1..MAX_ATTEMPTS {
        assert_eq!(sup.step(Event::Spawned(false)), Action::Backoff(250 * i as u64));
        assert_eq!(sup.step(Event::Waited { exited: false }), Action::Spawn);
    }
    assert_eq!(sup.step(Event::Spawned(false)), Action::Dropped);
    assert_eq!(sup.phase, Phase::Idle);
    assert_eq!(sup.failures, 0);
    assert_eq!(sup.step(Event::Message { exited: false }), Action::Spawn);
}

#[test]
fn unexpected_event_repeats_the_awaited_action() {
    let mut sup = Supervisor::new();
    assert_eq!(sup.step(Event::Wrote(true)), Action::AwaitMessage);
    sup.step(Event::Message { exited: false });
    let before = sup;
    assert_eq!(sup.step(Event::Message { exited: false }), Action::Spawn);
    assert_eq!(sup.step(Event::Opened(true)), Action::Spawn);
    assert_eq!(sup, before);
}
