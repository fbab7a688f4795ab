use aythya::{Directive, Event, Schedule, Scheduler, State};

/// Feeds the events to a fresh scheduler and returns the directive after
/// each of them.
fn drive(scheduler: &mut Scheduler, events: &[Event]) -> Vec<Directive> {
    events.iter().map(|event| scheduler.advance(*event)).collect()
}

#[test]
fn a_new_scheduler_waits_for_a_command() {
    let scheduler = Scheduler::new();
    assert_eq!(scheduler.state(), State::Idle);
    assert_eq!(scheduler.directive(), Directive::AwaitCommand);
}

#[test]
fn run_polls_before_every_engine_call() {
    let mut scheduler = Scheduler::new();
    assert_eq!(scheduler.advance(Event::Command(Schedule::Run)), Directive::PollCommand);
    assert_eq!(scheduler.state(), State::Polling);
    assert_eq!(scheduler.advance(Event::Empty), Directive::RunOnce);
    assert_eq!(scheduler.state(), State::Running);
    assert_eq!(
        scheduler.advance(Event::Yielded { frame_ready: false }),
        Directive::PollCommand
    );
    assert_eq!(scheduler.advance(Event::Empty), Directive::RunOnce);
    assert_eq!(
        scheduler.advance(Event::Yielded { frame_ready: true }),
        Directive::PollCommand
    );
}

#[test]
fn stop_does_nothing_and_waits_again() {
    let mut scheduler = Scheduler::new();
    assert_eq!(scheduler.advance(Event::Command(Schedule::Stop)), Directive::AwaitCommand);
    assert_eq!(scheduler.state(), State::Idle);
}

#[test]
fn step_calls_the_engine_once_and_waits_again() {
    let mut scheduler = Scheduler::new();
    assert_eq!(scheduler.advance(Event::Command(Schedule::Step)), Directive::Step);
    assert_eq!(scheduler.state(), State::Stepping);
    assert_eq!(
        scheduler.advance(Event::Yielded { frame_ready: false }),
        Directive::AwaitCommand
    );
    assert_eq!(scheduler.state(), State::Idle);
}

#[test]
fn run_frame_goes_on_until_a_frame_is_complete() {
    let mut scheduler = Scheduler::new();
    assert_eq!(scheduler.advance(Event::Command(Schedule::RunFrame)), Directive::RunOnce);
    assert_eq!(scheduler.state(), State::Framing);
    assert_eq!(scheduler.advance(Event::Yielded { frame_ready: false }), Directive::RunOnce);
    assert_eq!(scheduler.advance(Event::Yielded { frame_ready: false }), Directive::RunOnce);
    assert_eq!(
        scheduler.advance(Event::Yielded { frame_ready: true }),
        Directive::AwaitCommand
    );
    assert_eq!(scheduler.state(), State::Idle);
}

#[test]
fn run_frame_takes_no_command_before_its_frame() {
    let mut scheduler = Scheduler::new();
    scheduler.advance(Event::Command(Schedule::RunFrame));
    assert_eq!(scheduler.advance(Event::Command(Schedule::Quit)), Directive::RunOnce);
    assert_eq!(scheduler.advance(Event::Empty), Directive::RunOnce);
    assert_eq!(scheduler.state(), State::Framing);
}

#[test]
fn commands_are_served_in_the_order_sent() {
    let mut scheduler = Scheduler::new();
    let directives = drive(
        &mut scheduler,
        &[
            Event::Command(Schedule::Step),
            Event::Yielded { frame_ready: false },
            Event::Command(Schedule::Run),
            Event::Empty,
            Event::Yielded { frame_ready: true },
            Event::Command(Schedule::Stop),
            Event::Command(Schedule::RunFrame),
            Event::Yielded { frame_ready: true },
            Event::Command(Schedule::Quit),
        ],
    );
    assert_eq!(
        directives,
        vec![
            Directive::Step,
            Directive::AwaitCommand,
            Directive::PollCommand,
            Directive::RunOnce,
            Directive::PollCommand,
            Directive::AwaitCommand,
            Directive::RunOnce,
            Directive::AwaitCommand,
            Directive::Destroy,
        ]
    );
}

#[test]
fn a_command_preempts_a_run_at_the_next_poll() {
    let mut scheduler = Scheduler::new();
    scheduler.advance(Event::Command(Schedule::Run));
    scheduler.advance(Event::Empty);
    scheduler.advance(Event::Yielded { frame_ready: true });
    assert_eq!(scheduler.advance(Event::Command(Schedule::Step)), Directive::Step);
    assert_eq!(scheduler.state(), State::Stepping);
}

#[test]
fn no_command_is_taken_while_the_engine_runs() {
    let mut scheduler = Scheduler::new();
    scheduler.advance(Event::Command(Schedule::Run));
    scheduler.advance(Event::Empty);
    assert_eq!(scheduler.state(), State::Running);
    assert_eq!(scheduler.advance(Event::Command(Schedule::Stop)), Directive::RunOnce);
    assert_eq!(scheduler.state(), State::Running);
    assert_eq!(scheduler.advance(Event::Closed), Directive::RunOnce);
    assert_eq!(scheduler.state(), State::Running);
}

#[test]
fn stop_then_run_starts_afresh() {
    let mut scheduler = Scheduler::new();
    scheduler.advance(Event::Command(Schedule::Run));
    scheduler.advance(Event::Empty);
    scheduler.advance(Event::Yielded { frame_ready: true });
    // The run in progress sees `Stop` at its poll and comes to rest.
    assert_eq!(scheduler.advance(Event::Command(Schedule::Stop)), Directive::AwaitCommand);
    assert_eq!(scheduler.state(), State::Idle);
    // `Run` then begins with a poll of its own, not with an engine call.
    assert_eq!(scheduler.advance(Event::Command(Schedule::Run)), Directive::PollCommand);
    assert_eq!(scheduler.state(), State::Polling);
    assert_eq!(scheduler.advance(Event::Empty), Directive::RunOnce);
}

#[test]
fn quit_releases_the_engine_once_and_terminates() {
    let mut scheduler = Scheduler::new();
    assert_eq!(scheduler.advance(Event::Command(Schedule::Quit)), Directive::Destroy);
    assert_eq!(scheduler.state(), State::Quitting);
    assert_eq!(scheduler.advance(Event::Destroyed), Directive::Halt);
    assert_eq!(scheduler.state(), State::Terminated);
}

#[test]
fn quit_during_a_run_is_seen_at_the_poll() {
    let mut scheduler = Scheduler::new();
    let directives = drive(
        &mut scheduler,
        &[
            Event::Command(Schedule::Run),
            Event::Empty,
            Event::Yielded { frame_ready: true },
            Event::Command(Schedule::Quit),
            Event::Destroyed,
        ],
    );
    let destroys = directives.iter().filter(|d| **d == Directive::Destroy).count();
    assert_eq!(destroys, 1);
    assert_eq!(scheduler.state(), State::Terminated);
}

#[test]
fn a_closed_command_source_is_a_quit() {
    let mut waiting = Scheduler::new();
    assert_eq!(waiting.advance(Event::Closed), Directive::Destroy);

    let mut running = Scheduler::new();
    running.advance(Event::Command(Schedule::Run));
    assert_eq!(running.advance(Event::Closed), Directive::Destroy);
    assert_eq!(running.advance(Event::Destroyed), Directive::Halt);
}

#[test]
fn nothing_leads_out_of_termination() {
    let mut scheduler = Scheduler::new();
    scheduler.advance(Event::Command(Schedule::Quit));
    scheduler.advance(Event::Destroyed);
    let events = [
        Event::Command(Schedule::Stop),
        Event::Command(Schedule::Run),
        Event::Command(Schedule::Step),
        Event::Command(Schedule::RunFrame),
        Event::Command(Schedule::Quit),
        Event::Closed,
        Event::Empty,
        Event::Yielded { frame_ready: true },
        Event::Yielded { frame_ready: false },
        Event::Destroyed,
    ];
    for event in events {
        assert_eq!(scheduler.advance(event), Directive::Halt);
        assert_eq!(scheduler.state(), State::Terminated);
    }
}

#[test]
fn the_release_is_asked_for_until_it_is_reported() {
    let mut scheduler = Scheduler::new();
    let directives = drive(
        &mut scheduler,
        &[
            Event::Command(Schedule::Quit),
            Event::Command(Schedule::Quit),
            Event::Closed,
            Event::Destroyed,
            Event::Destroyed,
            Event::Command(Schedule::Quit),
            Event::Closed,
        ],
    );
    // `Destroy` is asked for until the release is reported, and never again.
    assert_eq!(
        directives,
        vec![
            Directive::Destroy,
            Directive::Destroy,
            Directive::Destroy,
            Directive::Halt,
            Directive::Halt,
            Directive::Halt,
            Directive::Halt,
        ]
    );
}

#[test]
fn an_event_that_is_not_expected_changes_nothing() {
    let mut scheduler = Scheduler::new();
    assert_eq!(scheduler.advance(Event::Empty), Directive::AwaitCommand);
    assert_eq!(
        scheduler.advance(Event::Yielded { frame_ready: true }),
        Directive::AwaitCommand
    );
    assert_eq!(scheduler.advance(Event::Destroyed), Directive::AwaitCommand);
    assert_eq!(scheduler.state(), State::Idle);

    scheduler.advance(Event::Command(Schedule::Run));
    assert_eq!(scheduler.advance(Event::Destroyed), Directive::PollCommand);
    assert_eq!(
        scheduler.advance(Event::Yielded { frame_ready: true }),
        Directive::PollCommand
    );
    assert_eq!(scheduler.state(), State::Polling);
}
