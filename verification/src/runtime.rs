//! The session between a driver and the machine.
//!
//! A driver has four requests: to assemble a source text and load it, to put
//! a number into the accumulator, to run one step, and to reset. The machine
//! answers each with its new state and, where there is one, with an event to
//! pass on or an error to show. The driver owns the loop: it takes the
//! requests one at a time and stops the program by no longer asking for
//! steps.

use vstd::prelude::*;
use crate::compiler::{compile, compile_spec};
use crate::message::{compile_message, invalid_location_message};
use crate::text::{parse_i16, parse_number};
use crate::vm::{Computer, ComputerView, Event, EventView};

verus! {

/// How fast a driver lets a program run: how long it waits between two
/// steps.
#[derive(Clone, Copy, PartialEq, Eq, Structural, Debug)]
pub enum RunSpeed {
    Slow,
    Medium,
    Fast,
    Instant,
}

impl RunSpeed {
    /// The milliseconds between two steps: a thousand when slow, 250 at
    /// medium speed, a hundred when fast, and none at all at once.
    pub open spec fn interval(self) -> nat {
        match self {
            RunSpeed::Slow => 1000,
            RunSpeed::Medium => 250,
            RunSpeed::Fast => 100,
            RunSpeed::Instant => 0,
        }
    }

    /// The milliseconds to wait between two steps.
    pub fn interval_millis(self) -> (millis: u64)
        ensures
            millis == self.interval(),
    {
        match self {
            RunSpeed::Slow => 1000,
            RunSpeed::Medium => 250,
            RunSpeed::Fast => 100,
            RunSpeed::Instant => 0,
        }
    }
}

impl Default for RunSpeed {
    /// Medium speed.
    fn default() -> (speed: Self)
        ensures
            speed == RunSpeed::Medium,
    {
        RunSpeed::Medium
    }
}

/// A request of the driver.
#[derive(PartialEq, Eq, Debug)]
pub enum Input {
    /// Assemble this source text and load its image.
    AssembleClicked(String),
    /// Put the number that this text denotes into the accumulator.
    SetInput(String),
    /// Run one instruction.
    Step,
    /// Set the registers to zero.
    Reset,
}

/// The mathematical value of an [`Input`].
pub enum InputView {
    AssembleClicked(Seq<char>),
    SetInput(Seq<char>),
    Step,
    Reset,
}

impl View for Input {
    type V = InputView;

    open spec fn view(&self) -> InputView {
        match self {
            Input::AssembleClicked(source) => InputView::AssembleClicked(source@),
            Input::SetInput(text) => InputView::SetInput(text@),
            Input::Step => InputView::Step,
            Input::Reset => InputView::Reset,
        }
    }
}

/// The answer of the machine to a request, beside its new state.
#[derive(PartialEq, Eq, Debug)]
pub enum Reply {
    /// Nothing to pass on.
    Done,
    /// The event of a step.
    Event(Event),
    /// The message of an error: of the assembler, or of a step.
    SetError(String),
}

/// The mathematical value of a [`Reply`].
pub enum ReplyView {
    Done,
    Event(EventView),
    SetError(Seq<char>),
}

impl View for Reply {
    type V = ReplyView;

    open spec fn view(&self) -> ReplyView {
        match self {
            Reply::Done => ReplyView::Done,
            Reply::Event(event) => ReplyView::Event(event@),
            Reply::SetError(message) => ReplyView::SetError(message@),
        }
    }
}

/// The number that the text of an input denotes: zero where it denotes
/// none.
pub open spec fn input_value(text: Seq<char>) -> i16 {
    match parse_i16(text) {
        Some(number) => number,
        None => 0,
    }
}

/// The machine after a request, and its answer.
///
/// * A source text that assembles is loaded into the machine, whose
///   registers are set to zero. One that does not leaves the machine as it
///   is, and the answer is the message of the error.
/// * An input sets the accumulator.
/// * A step is one step of the machine: the answer is its event, or the
///   message of its fault.
/// * A reset sets the registers to zero.
pub open spec fn respond_spec(computer: ComputerView, input: InputView) -> (
    ComputerView,
    ReplyView,
) {
    match input {
        InputView::AssembleClicked(source) => match compile_spec(source) {
            Ok(image) => (ComputerView { memory: image, ..computer.reset() }, ReplyView::Done),
            Err(e) => (computer, ReplyView::SetError(compile_message(e))),
        },
        InputView::SetInput(text) => (
            ComputerView { accumulator: input_value(text), ..computer },
            ReplyView::Done,
        ),
        InputView::Step => match computer.step().1 {
            Ok(event) => (computer.step().0, ReplyView::Event(event)),
            Err(e) => (computer.step().0, ReplyView::SetError(invalid_location_message(e))),
        },
        InputView::Reset => (computer.reset(), ReplyView::Done),
    }
}

/// Carries out one request of the driver on `computer`.
pub fn respond(computer: &mut Computer, input: Input) -> (reply: Reply)
    requires
        old(computer)@.wf(),
    ensures
        (final(computer)@, reply@) == respond_spec(old(computer)@, input@),
        final(computer)@.wf(),
{
    match input {
        Input::AssembleClicked(source) => match compile(source.as_str()) {
            Ok(image) => {
                computer.reset();
                computer.load(image);
                Reply::Done
            },
            Err(e) => Reply::SetError(e.message()),
        },
        Input::SetInput(text) => {
            let value = match parse_number(text.as_str()) {
                Some(number) => number,
                None => 0,
            };
            computer.set_input(value);
            Reply::Done
        },
        Input::Step => match computer.step() {
            Ok(event) => Reply::Event(event),
            Err(e) => Reply::SetError(e.message()),
        },
        Input::Reset => {
            computer.reset();
            Reply::Done
        },
    }
}

} // verus!
