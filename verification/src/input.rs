//! The events that the scene dispatches to views, and what views answer.
use vstd::prelude::*;
use crate::geom::Point;
use crate::view::ViewId;

verus! {

/// A key press, as delivered to the focused view.
#[derive(PartialEq, Eq, Structural, Debug, Copy, Clone)]
pub enum TextAction {
    /// A printable character, or a control code such as 8 (backspace) or
    /// 13 (return).
    TypedAscii(u8),
    BackDelete,
    ForwardDelete,
    Left,
    Right,
    Up,
    Down,
    Enter,
    Unknown,
}

/// An input event.
#[derive(PartialEq, Eq, Structural, Debug, Copy, Clone)]
pub enum InputEvent {
    /// A tap at a point, in the coordinates of the tapped view's parent.
    Tap(Point),
    Text(TextAction),
    Scroll(Point),
}

/// What a view asks the application to do in answer to an event.
#[derive(Debug, Clone, PartialEq, Eq)]
pub enum OutputAction {
    Command(String),
}

/// The view that answered an event, and its answer.
pub type EventResult = (ViewId, OutputAction);

/// A layout, drawing or input step would overflow `i32` (or another
/// integer type), divide by zero, or edit a text at a byte inside a
/// character; where the plain integer or string operation would panic, the
/// library reports this error instead.
#[derive(PartialEq, Eq, Structural, Debug, Copy, Clone)]
pub struct ArithmeticFault;

} // verus!
