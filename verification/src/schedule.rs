//! The execution scheduler: a state machine that turns the commands of the
//! user interface into the worker thread's next move.
//!
//! The worker owns the engine. It asks the [`Scheduler`] what to do
//! ([`Directive`]), does it, and reports what came of it ([`Event`]). All
//! decisions are taken here; the worker only blocks, polls and calls the
//! engine.

use vstd::prelude::*;

verus! {

/// An intent issued by the user interface.
#[derive(Debug, Clone, Copy, PartialEq, Eq, Structural)]
pub enum Schedule {
    /// Leave the engine alone until the next command.
    Stop,
    /// Run the engine until another command arrives.
    Run,
    /// Execute the smallest unit of work, without timekeeping.
    Step,
    /// Run until one video frame is complete, then stop.
    RunFrame,
    /// Release the engine and end the worker.
    Quit,
}

/// Where the worker stands.
#[derive(Debug, Clone, Copy, PartialEq, Eq, Structural)]
pub enum State {
    /// Blocked on the command source.
    Idle,
    /// Inside a `Run`, between two engine calls: looking for a newer command.
    Polling,
    /// Inside a `Run`, with one engine call in flight.
    Running,
    /// The single engine call of a `Step` is in flight.
    Stepping,
    /// Inside a `RunFrame`, with one engine call in flight.
    Framing,
    /// `Quit` was observed and the engine is being released.
    Quitting,
    /// The engine is gone; nothing happens any more.
    Terminated,
}

/// What the worker reports back.
#[derive(Debug, Clone, Copy, PartialEq, Eq, Structural)]
pub enum Event {
    /// A command was received, by a blocking or a polling receive.
    Command(Schedule),
    /// The command source is closed for good.
    Closed,
    /// A polling receive found no command.
    Empty,
    /// The engine call returned. `frame_ready` tells whether the frame-ready
    /// hook fired while it ran.
    Yielded { frame_ready: bool },
    /// The engine was released.
    Destroyed,
}

/// What the worker has to do next.
#[derive(Debug, Clone, Copy, PartialEq, Eq, Structural)]
pub enum Directive {
    /// Block until a command arrives or the source closes.
    AwaitCommand,
    /// Look for a command without blocking.
    PollCommand,
    /// Let the engine run once; it returns at its next point of rest.
    RunOnce,
    /// Let the engine make a single step.
    Step,
    /// Release the engine.
    Destroy,
    /// Leave the loop.
    Halt,
}

impl Schedule {
    /// The state in which the worker starts to serve this command.
    pub open spec fn target(self) -> State {
        match self {
            Schedule::Stop => State::Idle,
            Schedule::Run => State::Polling,
            Schedule::Step => State::Stepping,
            Schedule::RunFrame => State::Framing,
            Schedule::Quit => State::Quitting,
        }
    }
}

impl State {
    /// The worker takes commands in this state.
    pub open spec fn receptive(self) -> bool {
        self == State::Idle || self == State::Polling
    }

    /// An engine call is in flight in this state.
    pub open spec fn engine_in_flight(self) -> bool {
        self == State::Running || self == State::Stepping || self == State::Framing
    }

    /// The command that is being served, if one is.
    pub open spec fn active(self) -> Option<Schedule> {
        match self {
            State::Idle | State::Terminated => None,
            State::Polling | State::Running => Some(Schedule::Run),
            State::Stepping => Some(Schedule::Step),
            State::Framing => Some(Schedule::RunFrame),
            State::Quitting => Some(Schedule::Quit),
        }
    }

    /// What the worker has to do in this state.
    pub open spec fn directive(self) -> Directive {
        match self {
            State::Idle => Directive::AwaitCommand,
            State::Polling => Directive::PollCommand,
            State::Running | State::Framing => Directive::RunOnce,
            State::Stepping => Directive::Step,
            State::Quitting => Directive::Destroy,
            State::Terminated => Directive::Halt,
        }
    }

    /// The event is a possible outcome of what the worker does in this state.
    pub open spec fn expects(self, event: Event) -> bool {
        match event {
            Event::Command(_) | Event::Closed => self.receptive(),
            Event::Empty => self == State::Polling,
            Event::Yielded { .. } => self.engine_in_flight(),
            Event::Destroyed => self == State::Quitting,
        }
    }

    /// The state after an event. An event that the state does not expect
    /// changes nothing.
    pub open spec fn next(self, event: Event) -> State {
        if !self.expects(event) {
            self
        } else {
            match event {
                Event::Command(command) => command.target(),
                Event::Closed => State::Quitting,
                Event::Empty => State::Running,
                Event::Yielded { frame_ready } => match self {
                    State::Running => State::Polling,
                    State::Framing if !frame_ready => State::Framing,
                    _ => State::Idle,
                },
                Event::Destroyed => State::Terminated,
            }
        }
    }
}

/// The scheduler of one worker.
pub struct Scheduler {
    state: State,
}

impl Scheduler {
    /// Where the worker stands.
    pub closed spec fn view(&self) -> State {
        self.state
    }

    /// A scheduler for a worker that has just started: it waits for its
    /// first command.
    pub fn new() -> (scheduler: Self)
        ensures
            scheduler@ == State::Idle,
    {
        Scheduler { state: State::Idle }
    }

    /// Where the worker stands.
    pub fn state(&self) -> (state: State)
        ensures
            state == self@,
    {
        self.state
    }

    /// What the worker has to do now.
    pub fn directive(&self) -> (directive: Directive)
        ensures
            directive == self@.directive(),
    {
        match self.state {
            State::Idle => Directive::AwaitCommand,
            State::Polling => Directive::PollCommand,
            State::Running => Directive::RunOnce,
            State::Stepping => Directive::Step,
            State::Framing => Directive::RunOnce,
            State::Quitting => Directive::Destroy,
            State::Terminated => Directive::Halt,
        }
    }

    /// Takes in what the worker reports and says what it has to do next.
    pub fn advance(&mut self, event: Event) -> (directive: Directive)
        ensures
            final(self)@ == old(self)@.next(event),
            directive == final(self)@.directive(),
    {
        let next = match self.state {
            State::Idle => match event {
                Event::Command(command) => serve(command),
                Event::Closed => State::Quitting,
                _ => State::Idle,
            },
            State::Polling => match event {
                Event::Command(command) => serve(command),
                Event::Closed => State::Quitting,
                Event::Empty => State::Running,
                _ => State::Polling,
            },
            State::Running => match event {
                Event::Yielded { .. } => State::Polling,
                _ => State::Running,
            },
            State::Stepping => match event {
                Event::Yielded { .. } => State::Idle,
                _ => State::Stepping,
            },
            State::Framing => match event {
                Event::Yielded { frame_ready: true } => State::Idle,
                _ => State::Framing,
            },
            State::Quitting => match event {
                Event::Destroyed => State::Terminated,
                _ => State::Quitting,
            },
            State::Terminated => State::Terminated,
        };
        self.state = next;
        self.directive()
    }
}

/// The state in which the worker starts to serve a command.
fn serve(command: Schedule) -> (state: State)
    ensures
        state == command.target(),
{
    match command {
        Schedule::Stop => State::Idle,
        Schedule::Run => State::Polling,
        Schedule::Step => State::Stepping,
        Schedule::RunFrame => State::Framing,
        Schedule::Quit => State::Quitting,
    }
}

/// The state that a run of events leads to, starting from `start`.
pub open spec fn run(start: State, events: Seq<Event>) -> State
    decreases events.len(),
{
    if events.len() == 0 {
        start
    } else {
        run(start, events.drop_last()).next(events.last())
    }
}

/// Every event of the run is an outcome of what the worker was doing when
/// it arrived.
pub open spec fn orderly(start: State, events: Seq<Event>) -> bool {
    forall|i: int| 0 <= i < events.len() ==> #[trigger] run(start, events.take(i)).expects(events[i])
}

/// The commands that the events carry, in the order of the events.
pub open spec fn commands(events: Seq<Event>) -> Seq<Schedule>
    decreases events.len(),
{
    if events.len() == 0 {
        Seq::empty()
    } else {
        match events.last() {
            Event::Command(command) => commands(events.drop_last()).push(command),
            _ => commands(events.drop_last()),
        }
    }
}

/// The commands that the worker took up during the run, in the order in
/// which it took them up.
pub open spec fn served(start: State, events: Seq<Event>) -> Seq<Schedule>
    decreases events.len(),
{
    if events.len() == 0 {
        Seq::empty()
    } else {
        let before = run(start, events.drop_last());
        match events.last() {
            Event::Command(command) if before.receptive() => served(
                start,
                events.drop_last(),
            ).push(command),
            _ => served(start, events.drop_last()),
        }
    }
}

/// How often the run made the worker release the engine.
pub open spec fn releases(start: State, events: Seq<Event>) -> nat
    decreases events.len(),
{
    if events.len() == 0 {
        0
    } else {
        let before = run(start, events.drop_last());
        let entered: nat = if before != State::Quitting && before.next(events.last())
            == State::Quitting {
            1
        } else {
            0
        };
        releases(start, events.drop_last()) + entered
    }
}

/// A prefix of an orderly run is orderly.
proof fn lemma_orderly_prefix(start: State, events: Seq<Event>)
    requires
        orderly(start, events),
        events.len() > 0,
    ensures
        orderly(start, events.drop_last()),
        run(start, events.drop_last()).expects(events.last()),
{
    let shorter = events.drop_last();
    assert forall|i: int| 0 <= i < shorter.len() implies #[trigger] run(
        start,
        shorter.take(i),
    ).expects(shorter[i]) by {
        assert(shorter.take(i) == events.take(i));
        assert(run(start, events.take(i)).expects(events[i]));
    }
    assert(events.take(events.len() - 1) == shorter);
    assert(run(start, events.take(events.len() - 1)).expects(events[events.len() - 1]));
}

/// Commands are served in the order in which they arrive: in an orderly
/// run the worker takes up every command that it receives, once, and
/// nothing else.
pub proof fn lemma_commands_served_in_order(start: State, events: Seq<Event>)
    requires
        orderly(start, events),
    ensures
        served(start, events) == commands(events),
    decreases events.len(),
{
    if events.len() > 0 {
        lemma_orderly_prefix(start, events);
        lemma_commands_served_in_order(start, events.drop_last());
    }
}

/// At most one command is served at a time, and it is the last one taken
/// up: a command that arrives replaces whatever was served before, and the
/// engine is at rest at that moment.
pub proof fn lemma_one_command_at_a_time(state: State, command: Schedule)
    requires
        state.expects(Event::Command(command)),
    ensures
        !state.engine_in_flight(),
        state.next(Event::Command(command)).active() == if command == Schedule::Stop {
            None
        } else {
            Some(command)
        },
{
}

/// No engine call spans two commands. While a call is in flight the worker
/// takes no command; and from wherever `Stop` is taken up, the worker comes
/// to rest, a following `Run` starts by polling, and only an empty poll
/// starts the first engine call of that `Run`.
pub proof fn lemma_stop_then_run(state: State, event: Event)
    ensures
        state.engine_in_flight() ==> !state.expects(Event::Command(Schedule::Stop))
            && state.next(Event::Command(Schedule::Stop)) == state,
        state.receptive() ==> {
            let stopped = state.next(Event::Command(Schedule::Stop));
            let resumed = stopped.next(Event::Command(Schedule::Run));
            &&& stopped == State::Idle
            &&& stopped.directive() == Directive::AwaitCommand
            &&& resumed == State::Polling
            &&& resumed.directive() == Directive::PollCommand
            &&& (resumed.next(event) == State::Running <==> event == Event::Empty)
        },
{
}

/// `Quit`, or the command source closing, makes the worker release the
/// engine as soon as it is taken up; once the engine is released the worker
/// is terminated; and nothing leads out of that state.
pub proof fn lemma_quit_terminates(state: State, event: Event)
    ensures
        state.receptive() ==> state.next(Event::Command(Schedule::Quit)) == State::Quitting,
        state.receptive() ==> state.next(Event::Closed) == State::Quitting,
        State::Quitting.directive() == Directive::Destroy,
        State::Quitting.next(Event::Destroyed) == State::Terminated,
        State::Terminated.next(event) == State::Terminated,
        State::Terminated.directive() == Directive::Halt,
        state.directive() == Directive::Destroy <==> state == State::Quitting,
{
}

/// Once `Quit` has been taken up, or the command source has closed, the
/// worker is on its way out for good: at that moment it starts to release
/// the engine, and whatever follows, it is releasing it or is terminated.
pub proof fn lemma_quit_is_final(start: State, events: Seq<Event>, at: int, later: int)
    requires
        orderly(start, events),
        0 <= at < later <= events.len(),
        events[at] == Event::Command(Schedule::Quit) || events[at] == Event::Closed,
    ensures
        run(start, events.take(at + 1)) == State::Quitting,
        run(start, events.take(later)) == State::Quitting || run(start, events.take(later))
            == State::Terminated,
    decreases later - at,
{
    assert(run(start, events.take(at)).expects(events[at]));
    assert(events.take(at + 1).drop_last() =~= events.take(at));
    if later > at + 1 {
        lemma_quit_is_final(start, events, at, later - 1);
        assert(events.take(later).drop_last() =~= events.take(later - 1));
    }
}

/// An engine call that returns brings the worker back to where it takes
/// commands, except in the middle of a `RunFrame`, which goes on until a
/// frame is complete.
pub proof fn lemma_receptive_after_yield(state: State, frame_ready: bool)
    requires
        state.engine_in_flight(),
    ensures
        state.next(Event::Yielded { frame_ready }).receptive() <==> (state != State::Framing
            || frame_ready),
        !state.next(Event::Yielded { frame_ready }).receptive() ==> state.next(
            Event::Yielded { frame_ready },
        ) == State::Framing,
{
}

/// The engine is released exactly once on the way to termination, and never
/// more than once whatever happens.
pub proof fn lemma_released_once(start: State, events: Seq<Event>)
    requires
        start != State::Quitting,
        start != State::Terminated,
    ensures
        releases(start, events) <= 1,
        releases(start, events) == 1 <==> (run(start, events) == State::Quitting || run(
            start,
            events,
        ) == State::Terminated),
    decreases events.len(),
{
    if events.len() > 0 {
        lemma_released_once(start, events.drop_last());
    }
}

} // verus!
