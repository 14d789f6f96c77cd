//! Two commands that come with the console: `fps`, which shows or hides the
//! frame-rate display, and `input`, which picks the input device. Each
//! turns its argument into a request, and a request into the next state and
//! the line that reports it.

use vstd::prelude::*;
use crate::event::Feedback;
use crate::record::Level;

verus! {

/// Whether the frame rate is displayed.
#[derive(Clone, Copy, PartialEq, Eq, Debug, Hash, Structural)]
pub enum Fps {
    Off,
    On,
}

/// What the `fps` command asks for.
#[derive(Clone, Copy, PartialEq, Eq, Debug, Structural)]
pub enum FpsCommand {
    /// To report the state.
    State,
    Close,
    Open,
}

/// The input device in use.
#[derive(Clone, Copy, PartialEq, Eq, Debug, Hash, Structural)]
pub enum Input {
    /// No device.
    Off,
    Gamepad,
    Keyboard,
}

/// What the `input` command asks for.
#[derive(Clone, Copy, PartialEq, Eq, Debug, Structural)]
pub enum InputCommand {
    /// To report the state.
    State,
    /// No device.
    Off,
    Gamepad,
    Keyboard,
}

impl Default for Fps {
    fn default() -> (r: Self)
        ensures
            r == Fps::Off,
    {
        Fps::Off
    }
}

impl Default for FpsCommand {
    fn default() -> (r: Self)
        ensures
            r == FpsCommand::State,
    {
        FpsCommand::State
    }
}

impl Default for Input {
    fn default() -> (r: Self)
        ensures
            r == Input::Off,
    {
        Input::Off
    }
}

impl Default for InputCommand {
    fn default() -> (r: Self)
        ensures
            r == InputCommand::State,
    {
        InputCommand::State
    }
}

/// The state that a request leaves the frame-rate display in.
pub open spec fn fps_after(state: Fps, command: FpsCommand) -> Fps {
    match command {
        FpsCommand::Open => Fps::On,
        FpsCommand::Close => Fps::Off,
        FpsCommand::State => state,
    }
}

/// The line that reports the state of the frame-rate display.
pub open spec fn fps_report(state: Fps) -> Seq<char> {
    match state {
        Fps::Off => "fps 0"@,
        Fps::On => "fps 1"@,
    }
}

/// The input device that a request leaves in use.
pub open spec fn input_after(state: Input, command: InputCommand) -> Input {
    match command {
        InputCommand::Off => Input::Off,
        InputCommand::Gamepad => Input::Gamepad,
        InputCommand::Keyboard => Input::Keyboard,
        InputCommand::State => state,
    }
}

/// The line that reports the input device in use.
pub open spec fn input_report(state: Input) -> Seq<char> {
    match state {
        Input::Off => "input 0"@,
        Input::Gamepad => "input 1"@,
        Input::Keyboard => "input 2"@,
    }
}

impl FpsCommand {
    /// The request that the command's argument stands for: 0 closes, 1
    /// opens, no argument asks for the state; any other number is none.
    pub fn parse(value: Option<u8>) -> (r: Option<FpsCommand>)
        ensures
            r == match value {
                None => Some(FpsCommand::State),
                Some(v) => if v == 0 {
                    Some(FpsCommand::Close)
                } else if v == 1 {
                    Some(FpsCommand::Open)
                } else {
                    None
                },
            },
    {
        match value {
            Some(0) => Some(FpsCommand::Close),
            Some(1) => Some(FpsCommand::Open),
            None => Some(FpsCommand::State),
            _ => None,
        }
    }
}

impl Fps {
    /// The state after `command`, and the line that reports it, to be
    /// appended to the log at `Success`.
    pub fn display(self, command: FpsCommand) -> (r: (Fps, Feedback))
        ensures
            r.0 == fps_after(self, command),
            match r.1 {
                Feedback::Append(message, level) => message@ == fps_report(r.0) && level
                    == Level::Success,
                Feedback::Replace(_, _) => false,
            },
    {
        let next = match command {
            FpsCommand::Open => Fps::On,
            FpsCommand::Close => Fps::Off,
            FpsCommand::State => self,
        };
        let message = match next {
            Fps::Off => "fps 0",
            Fps::On => "fps 1",
        };
        (next, Feedback::Append(message.to_string(), Level::Success))
    }
}

impl InputCommand {
    /// The request that the command's argument stands for: 0 is no device, 1
    /// the gamepad, 2 the keyboard, no argument asks for the state; any
    /// other number is none.
    pub fn parse(value: Option<u8>) -> (r: Option<InputCommand>)
        ensures
            r == match value {
                None => Some(InputCommand::State),
                Some(v) => if v == 0 {
                    Some(InputCommand::Off)
                } else if v == 1 {
                    Some(InputCommand::Gamepad)
                } else if v == 2 {
                    Some(InputCommand::Keyboard)
                } else {
                    None
                },
            },
    {
        match value {
            Some(0) => Some(InputCommand::Off),
            Some(1) => Some(InputCommand::Gamepad),
            Some(2) => Some(InputCommand::Keyboard),
            None => Some(InputCommand::State),
            _ => None,
        }
    }
}

impl Input {
    /// The device in use after `command`, and the line that reports it, to
    /// be appended to the log at `Success`.
    pub fn toggle(self, command: InputCommand) -> (r: (Input, Feedback))
        ensures
            r.0 == input_after(self, command),
            match r.1 {
                Feedback::Append(message, level) => message@ == input_report(r.0) && level
                    == Level::Success,
                Feedback::Replace(_, _) => false,
            },
    {
        let next = match command {
            InputCommand::Off => Input::Off,
            InputCommand::Gamepad => Input::Gamepad,
            InputCommand::Keyboard => Input::Keyboard,
            InputCommand::State => self,
        };
        let message = match next {
            Input::Off => "input 0",
            Input::Gamepad => "input 1",
            Input::Keyboard => "input 2",
        };
        (next, Feedback::Append(message.to_string(), Level::Success))
    }
}

} // verus!
