use vstd::prelude::*;

verus! {

/// Where the door is, or where it is going.
#[derive(Clone, Copy, Debug, PartialEq, Eq, Structural)]
pub enum State {
    Opened,
    Closed,
    Opening,
    Closing,
    Holding,
}

/// A command, or a report from the door's end-position sensors.
#[derive(Clone, Copy, Debug, PartialEq, Eq, Structural)]
pub enum Event {
    Open,
    Close,
    Hold,
    Unhold,
    IsOpen,
    IsClose,
}

/// Told about each step a motor makes.
pub trait MotorObserver {
    fn on_step(&mut self, step: i64);
}

/// A sensor report that cannot be true in state `s`: the door reported shut
/// while open, opening or held, or reported open while shut or closing.
pub open spec fn contradicts(s: State, e: Event) -> bool {
    match (s, e) {
        (State::Opened, Event::IsClose) => true,
        (State::Closed, Event::IsOpen) => true,
        (State::Opening, Event::IsClose) => true,
        (State::Closing, Event::IsOpen) => true,
        (State::Holding, Event::IsClose) => true,
        _ => false,
    }
}

/// The state after event `e` in state `s`; events with no effect keep it.
pub open spec fn door_step(s: State, e: Event) -> State {
    match (s, e) {
        (State::Opened, Event::Close) => State::Closing,
        (State::Opened, Event::Hold) => State::Holding,
        (State::Closed, Event::Open) => State::Opening,
        (State::Opening, Event::Close) => State::Closing,
        (State::Closing, Event::Open) => State::Opening,
        (State::Opening, Event::IsOpen) => State::Opened,
        (State::Closing, Event::IsClose) => State::Closed,
        (State::Holding, Event::Unhold) => State::Opened,
        _ => s,
    }
}

/// A motorised door.
pub struct Door {
    state: State,
}

impl Door {
    pub closed spec fn state_of(&self) -> State {
        self.state
    }

    /// A door that starts out closed and is told to open at once.
    pub fn new() -> (r: Self)
        ensures
            r.state_of() == State::Opening,
    {
        let mut t = Door { state: State::Closed };
        t.process_event(Event::Open);
        t
    }

    pub fn state(&self) -> (r: State)
        ensures
            r == self.state_of(),
    {
        self.state
    }

    pub fn process_event(&mut self, event: Event)
        requires
            !contradicts(old(self).state_of(), event),
        ensures
            final(self).state_of() == door_step(old(self).state_of(), event),
    {
        match (self.state, event) {
            (State::Opened, Event::Close) => self.close_door(),
            (State::Opened, Event::Hold) => self.state = State::Holding,
            (State::Closed, Event::Open) => self.open_door(),
            (State::Opening, Event::Close) => self.close_door(),
            (State::Closing, Event::Open) => self.open_door(),
            (State::Opening, Event::IsOpen) => self.state = State::Opened,
            (State::Closing, Event::IsClose) => self.state = State::Closed,
            (State::Holding, Event::Unhold) => self.state = State::Opened,
            _ => {},
        }
    }

    fn open_door(&mut self)
        ensures
            final(self).state_of() == State::Opening,
    {
        self.state = State::Opening;
    }

    fn close_door(&mut self)
        ensures
            final(self).state_of() == State::Closing,
    {
        self.state = State::Closing;
    }
}

} // verus!
