//! Pointer commands and the backend calls they stand for.

use vstd::prelude::*;

verus! {

/// A pointer displacement or wheel delta in device units.
#[derive(Clone, Copy, Debug, PartialEq, Eq, Structural)]
pub struct Vector2 {
    pub x: i32,
    pub y: i32,
}

/// One instruction of the command language.
#[derive(Clone, Copy, Debug, PartialEq, Eq, Structural)]
pub enum Command {
    /// Move the pointer by the given relative displacement.
    Move(Vector2),
    /// Turn the wheel: `x` horizontally, `y` vertically.
    Scroll(Vector2),
    /// Press and release the primary button.
    LeftClick,
    /// Press and release the secondary button.
    RightClick,
}

/// One call on the host's input backend.
#[derive(Clone, Copy, Debug, PartialEq, Eq, Structural)]
pub enum BackendCall {
    MovePointer(Vector2),
    Scroll(Vector2),
    ClickLeft,
    ClickRight,
}

impl Command {
    /// The backend call that carries out this command.
    pub open spec fn backend_call(self) -> BackendCall {
        match self {
            Command::Move(v) => BackendCall::MovePointer(v),
            Command::Scroll(v) => BackendCall::Scroll(v),
            Command::LeftClick => BackendCall::ClickLeft,
            Command::RightClick => BackendCall::ClickRight,
        }
    }

    /// Maps the command to the single backend call that carries it out.
    /// The command itself is left untouched; the executor keeps no state.
    pub fn execute(&self) -> (call: BackendCall)
        ensures
            call == self.backend_call(),
    {
        match *self {
            Command::Move(v) => BackendCall::MovePointer(v),
            Command::Scroll(v) => BackendCall::Scroll(v),
            Command::LeftClick => BackendCall::ClickLeft,
            Command::RightClick => BackendCall::ClickRight,
        }
    }
}

} // verus!
