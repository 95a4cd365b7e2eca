//! The simulation host's side of the bridge: what each event becomes in the
//! simulation's own terms, and the few decisions that the host's command
//! handlers take.

use vstd::prelude::*;
use crate::event::{Event, Point};

verus! {

/// The unit of a scroll notification.
#[derive(Clone, Copy, Debug, PartialEq, Eq)]
pub enum ScrollUnit {
    Pixel,
    Line,
}

/// Whether a button went down or up.
#[derive(Clone, Copy, Debug, PartialEq, Eq)]
pub enum ButtonState {
    Pressed,
    Released,
}

/// A pointer button, as the simulation names it.
#[derive(Clone, Copy, Debug, PartialEq, Eq)]
pub enum PointerButton {
    Left,
    Middle,
    Right,
    Back,
    Forward,
    Other(u16),
}

/// One notification for the simulation.
#[derive(Clone, Copy, Debug, PartialEq, Eq)]
#[allow(inconsistent_fields)]
pub enum Notification {
    /// The primary render target has a new logical size.
    WindowResized { width: u32, height: u32 },
    /// The pointer is over the primary render target.
    CursorEntered,
    /// The pointer is no longer over the primary render target.
    CursorLeft,
    /// The pointer is at `position`, `delta` away from where it was.
    CursorMoved { position: Point, delta: Option<Point> },
    /// The pointer moved by `delta`; no render target is named.
    MouseMotion { delta: Point },
    /// Scroll input; `x` and `y` are the bit patterns that the event carried.
    MouseWheel { unit: ScrollUnit, x: u64, y: u64 },
    /// A button changed its state.
    MouseButtonInput { state: ButtonState, button: PointerButton },
}

/// What the host does with one event: it sets the primary render target's
/// logical resolution where `resolution` holds one, and then sends
/// `notification`.
#[derive(Clone, Copy, Debug, PartialEq, Eq)]
pub struct Translation {
    pub resolution: Option<(u32, u32)>,
    pub notification: Notification,
}

/// The logical resolution that the primary render target is created with.
pub const DEFAULT_RESOLUTION: (u32, u32) = (500, 500);

/// The scroll unit that a unit code stands for: 0 for pixels, 1 for lines,
/// and none for any other code.
pub open spec fn scroll_unit_of(code: u32) -> Option<ScrollUnit> {
    if code == 0 {
        Some(ScrollUnit::Pixel)
    } else if code == 1 {
        Some(ScrollUnit::Line)
    } else {
        None
    }
}

/// The number that a button index is carried as where the simulation has no
/// name for the button: the index itself, or, below zero, the index plus 65536.
pub open spec fn other_code(index: i16) -> u16 {
    if index >= 0 {
        index as u16
    } else {
        (index + 0x1_0000) as u16
    }
}

/// The button that a button index stands for.
pub open spec fn button_of(index: i16) -> PointerButton {
    if index == 0 {
        PointerButton::Left
    } else if index == 1 {
        PointerButton::Middle
    } else if index == 2 {
        PointerButton::Right
    } else if index == 3 {
        PointerButton::Back
    } else if index == 4 {
        PointerButton::Forward
    } else {
        PointerButton::Other(other_code(index))
    }
}

/// The button state that a `pressed` flag stands for.
pub open spec fn state_of(pressed: bool) -> ButtonState {
    if pressed {
        ButtonState::Pressed
    } else {
        ButtonState::Released
    }
}

/// Whether the host can take `event`: every event but a wheel event whose
/// unit code is neither 0 nor 1.
pub open spec fn is_translatable(event: Event) -> bool {
    match event {
        Event::MouseWheel { unit, .. } => unit == 0 || unit == 1,
        _ => true,
    }
}

/// What the host does with `event`.
pub open spec fn translation_of(event: Event) -> Translation {
    match event {
        Event::Resize { width, height } => Translation {
            resolution: Some((width, height)),
            notification: Notification::WindowResized { width, height },
        },
        Event::CursorEntered => Translation { resolution: None, notification: Notification::CursorEntered },
        Event::CursorLeft => Translation { resolution: None, notification: Notification::CursorLeft },
        Event::CursorMoved { delta, position } => Translation {
            resolution: None,
            notification: Notification::CursorMoved { position, delta },
        },
        Event::MouseMotion { delta } => Translation {
            resolution: None,
            notification: Notification::MouseMotion { delta },
        },
        Event::MouseWheel { delta, unit } => Translation {
            resolution: None,
            notification: Notification::MouseWheel {
                unit: if unit == 0 {
                    ScrollUnit::Pixel
                } else {
                    ScrollUnit::Line
                },
                x: delta.0,
                y: delta.1,
            },
        },
        Event::MouseButton { pressed, button } => Translation {
            resolution: None,
            notification: Notification::MouseButtonInput {
                state: state_of(pressed),
                button: button_of(button),
            },
        },
    }
}

/// Whether `notification` names the primary render target: all do but raw
/// pointer motion.
pub open spec fn names_target(notification: Notification) -> bool {
    !(notification is MouseMotion)
}

/// Reads a scroll unit code.
pub fn scroll_unit(code: u32) -> (unit: Option<ScrollUnit>)
    ensures
        unit == scroll_unit_of(code),
{
    if code == 0 {
        Some(ScrollUnit::Pixel)
    } else if code == 1 {
        Some(ScrollUnit::Line)
    } else {
        None
    }
}

/// Reads a button index.
pub fn pointer_button(index: i16) -> (button: PointerButton)
    ensures
        button == button_of(index),
{
    if index == 0 {
        PointerButton::Left
    } else if index == 1 {
        PointerButton::Middle
    } else if index == 2 {
        PointerButton::Right
    } else if index == 3 {
        PointerButton::Back
    } else if index == 4 {
        PointerButton::Forward
    } else if index >= 0 {
        PointerButton::Other(index as u16)
    } else {
        let lifted: i32 = index as i32 + 0x1_0000;
        PointerButton::Other(lifted as u16)
    }
}

/// Reads a `pressed` flag.
pub fn button_state(pressed: bool) -> (state: ButtonState)
    ensures
        state == state_of(pressed),
{
    if pressed {
        ButtonState::Pressed
    } else {
        ButtonState::Released
    }
}

/// Tells whether the host can take `event`.
pub fn can_translate(event: &Event) -> (ok: bool)
    ensures
        ok == is_translatable(*event),
{
    match event {
        Event::MouseWheel { unit, .. } => scroll_unit(*unit).is_some(),
        _ => true,
    }
}

/// Turns one event into what the host does with it. A wheel event with a unit
/// code other than 0 and 1 breaks the caller's side of the contract.
pub fn translate(event: Event) -> (translation: Translation)
    requires
        is_translatable(event),
    ensures
        translation == translation_of(event),
{
    match event {
        Event::Resize { width, height } => Translation {
            resolution: Some((width, height)),
            notification: Notification::WindowResized { width, height },
        },
        Event::CursorEntered => Translation { resolution: None, notification: Notification::CursorEntered },
        Event::CursorLeft => Translation { resolution: None, notification: Notification::CursorLeft },
        Event::CursorMoved { delta, position } => Translation {
            resolution: None,
            notification: Notification::CursorMoved { position, delta },
        },
        Event::MouseMotion { delta } => Translation {
            resolution: None,
            notification: Notification::MouseMotion { delta },
        },
        Event::MouseWheel { delta, unit } => Translation {
            resolution: None,
            notification: Notification::MouseWheel {
                unit: if unit == 0 {
                    ScrollUnit::Pixel
                } else {
                    ScrollUnit::Line
                },
                x: delta.0,
                y: delta.1,
            },
        },
        Event::MouseButton { pressed, button } => Translation {
            resolution: None,
            notification: Notification::MouseButtonInput {
                state: button_state(pressed),
                button: pointer_button(button),
            },
        },
    }
}

/// Tells whether `notification` names the primary render target.
pub fn carries_target(notification: &Notification) -> (named: bool)
    ensures
        named == names_target(*notification),
{
    match notification {
        Notification::MouseMotion { .. } => false,
        _ => true,
    }
}

/// The primary render target among the `candidates` that claim to be it:
/// the one candidate where there is exactly one, none otherwise.
pub fn primary_target(candidates: &Vec<u64>) -> (target: Option<u64>)
    ensures
        target == if candidates@.len() == 1 {
            Some(candidates@[0])
        } else {
            None
        },
{
    if candidates.len() == 1 {
        Some(candidates[0])
    } else {
        None
    }
}

/// What `init` does after it has asked whether the subsystems are ready.
#[derive(Clone, Copy, Debug, PartialEq, Eq)]
pub enum InitStep {
    /// Not ready: yield, keeping the lock, and ask again.
    Wait,
    /// Ready: finish the setup, run the cleanup, and return.
    Finalize,
}

/// Decides the next step of `init` from the answer to the readiness query.
pub fn after_readiness_query(ready: bool) -> (step: InitStep)
    ensures
        step == if ready {
            InitStep::Finalize
        } else {
            InitStep::Wait
        },
{
    if ready {
        InitStep::Finalize
    } else {
        InitStep::Wait
    }
}

/// The period of the tick timer for an interval of `interval_millis` whole
/// milliseconds: the interval, reduced modulo 2^32 to what the timer takes.
pub fn tick_period_millis(interval_millis: u128) -> (period: u32)
    ensures
        period == interval_millis % 0x1_0000_0000,
{
    (interval_millis % 0x1_0000_0000) as u32
}

/// Button indices 0 to 4 have names of their own; 5 and every other index
/// is carried as a number.
pub proof fn lemma_button_names()
    ensures
        button_of(0) == PointerButton::Left,
        button_of(1) == PointerButton::Middle,
        button_of(2) == PointerButton::Right,
        button_of(3) == PointerButton::Back,
        button_of(4) == PointerButton::Forward,
        button_of(5) == PointerButton::Other(5),
        forall|index: i16| index > 4 ==> #[trigger] button_of(index) == PointerButton::Other(index as u16),
        forall|index: i16| index < 0 ==> button_of(index) is Other,
{
}

/// Unit code 0 means pixels and 1 means lines; the host takes a wheel event
/// exactly when its unit code is one of the two.
pub proof fn lemma_scroll_units(delta: (u64, u64), unit: u32)
    ensures
        scroll_unit_of(0) == Some(ScrollUnit::Pixel),
        scroll_unit_of(1) == Some(ScrollUnit::Line),
        scroll_unit_of(unit) is Some <==> unit == 0 || unit == 1,
        is_translatable(Event::MouseWheel { delta, unit }) <==> scroll_unit_of(unit) is Some,
        scroll_unit_of(unit) matches Some(u) ==> translation_of(Event::MouseWheel { delta, unit })
            == (Translation {
            resolution: None,
            notification: Notification::MouseWheel { unit: u, x: delta.0, y: delta.1 },
        }),
{
}

} // verus!
