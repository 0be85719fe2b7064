//! Input events: which key presses the editor acts on, and what they mean.

use vstd::prelude::*;
use cursive::event::{Callback, Event, EventResult, Key, MouseButton, MouseEvent};
use cursive::XY;
use crate::cell::hex_value;

verus! {

/// `cursive::event::Key`: a key that is not a character.
#[verifier::external_type_specification]
pub struct ExKey(Key);

/// `cursive::event::MouseButton`: a button of the mouse.
#[verifier::external_type_specification]
pub struct ExMouseButton(MouseButton);

/// `cursive::event::MouseEvent`: what the mouse did.
#[verifier::external_type_specification]
pub struct ExMouseEvent(MouseEvent);

/// `cursive::XY`: a value for each of the two axes.
#[verifier::external_type_specification]
#[verifier::reject_recursive_types(T)]
pub struct ExXY<T>(XY<T>);

/// `cursive::event::Event`: one input event as the terminal library
/// delivers it.
#[verifier::external_type_specification]
pub struct ExEvent(Event);

/// `cursive::event::Callback`: a function for the host to run. The engine
/// never makes or reads one.
#[verifier::external_type_specification]
#[verifier::external_body]
pub struct ExCallback(Callback);

/// `cursive::event::EventResult`: whether a view took an event.
#[verifier::external_type_specification]
pub struct ExEventResult(EventResult);

/// An input event as the engine understands it.
#[derive(Clone, Copy, Debug, PartialEq, Eq, Structural)]
pub enum InputEvent {
    /// One nybble backward.
    Left,
    /// One nybble forward.
    Right,
    /// One row up.
    Up,
    /// One row down.
    Down,
    /// A hexadecimal digit was typed; its value is below sixteen.
    Digit(u8),
    /// Anything else. The engine leaves it to the host.
    Unrecognized,
}

/// Whether a character is one of the sixteen digits `0-9`, `a-f`.
pub open spec fn is_hex_key(c: char) -> bool {
    0x30 <= c as int <= 0x39 || 0x61 <= c as int <= 0x66
}

/// What an event of the terminal library means to the engine: the four
/// arrow keys move, a lowercase hexadecimal digit is typed into the buffer,
/// and nothing else is recognized.
pub open spec fn decoded(event: Event) -> InputEvent {
    match event {
        Event::Key(Key::Left) => InputEvent::Left,
        Event::Key(Key::Right) => InputEvent::Right,
        Event::Key(Key::Up) => InputEvent::Up,
        Event::Key(Key::Down) => InputEvent::Down,
        Event::Char(c) => if is_hex_key(c) {
            InputEvent::Digit(hex_value(c) as u8)
        } else {
            InputEvent::Unrecognized
        },
        _ => InputEvent::Unrecognized,
    }
}

impl InputEvent {
    /// Whether a typed digit, if this is one, is below sixteen.
    pub open spec fn wf(&self) -> bool {
        *self matches InputEvent::Digit(v) ==> v < 16
    }
}

/// A decoded event is well-formed, and a digit is decoded to the value it
/// is written with.
pub proof fn lemma_decoded_wf(event: Event)
    ensures
        decoded(event).wf(),
        decoded(event) matches InputEvent::Digit(v) ==> event matches Event::Char(c) && hex_value(c)
            == v,
{
}

/// Decodes an event of the terminal library.
pub fn decode_event(event: &Event) -> (input: InputEvent)
    ensures
        input == decoded(*event),
        input.wf(),
{
    match event {
        Event::Key(Key::Left) => InputEvent::Left,
        Event::Key(Key::Right) => InputEvent::Right,
        Event::Key(Key::Up) => InputEvent::Up,
        Event::Key(Key::Down) => InputEvent::Down,
        Event::Char(c) => {
            let c: char = *c;
            if '0' <= c && c <= '9' {
                InputEvent::Digit(c as u8 - 0x30)
            } else if 'a' <= c && c <= 'f' {
                InputEvent::Digit(c as u8 - 0x57)
            } else {
                InputEvent::Unrecognized
            }
        },
        _ => InputEvent::Unrecognized,
    }
}

} // verus!
