//! The listeners that feed an input normalizer: which raw inputs the
//! foreground listens for, where, under which name, and what it has to read
//! from each.

use vstd::prelude::*;
use crate::event::Point;
use crate::normalizer::RawInput;

verus! {

/// Where a listener is attached.
#[derive(Clone, Copy, Debug, PartialEq, Eq)]
pub enum Scope {
    /// On the document's body: input anywhere on the page.
    Document,
    /// On the surface element only.
    Surface,
}

/// What a listener reads from the raw input that it is called with.
#[derive(Clone, Copy, Debug, PartialEq, Eq)]
pub enum Reading {
    /// Nothing.
    Nothing,
    /// The index of the button that changed.
    Button,
    /// The pointer's offset coordinates.
    Offset,
    /// The wheel's two deltas and its unit code.
    Wheel,
}

/// What was read from one raw input. A field that the listener's `Reading`
/// does not ask for may hold anything.
#[derive(Clone, Copy, Debug, PartialEq, Eq)]
pub struct Sample {
    pub button: i16,
    pub offset: Point,
    pub wheel_delta: (u64, u64),
    pub wheel_unit: u32,
}

/// One of the nine listeners.
#[derive(Clone, Copy, Debug, PartialEq, Eq)]
pub enum Listener {
    DocumentPointerUp,
    DocumentPointerOut,
    DocumentPointerMove,
    SurfacePointerMove,
    SurfacePointerDown,
    SurfacePointerOver,
    SurfacePointerOut,
    SurfaceWheel,
    SurfaceContextMenu,
}

impl Listener {
    /// Where the listener is attached.
    pub open spec fn scope_of(self) -> Scope {
        match self {
            Listener::DocumentPointerUp | Listener::DocumentPointerOut | Listener::DocumentPointerMove =>
                Scope::Document,
            _ => Scope::Surface,
        }
    }

    /// The name of the raw input that the listener is attached for.
    pub open spec fn name_of(self) -> Seq<char> {
        match self {
            Listener::DocumentPointerUp => "pointerup"@,
            Listener::DocumentPointerOut | Listener::SurfacePointerOut => "pointerout"@,
            Listener::DocumentPointerMove | Listener::SurfacePointerMove => "pointermove"@,
            Listener::SurfacePointerDown => "pointerdown"@,
            Listener::SurfacePointerOver => "pointerover"@,
            Listener::SurfaceWheel => "wheel"@,
            Listener::SurfaceContextMenu => "contextmenu"@,
        }
    }

    /// Whether the listener suppresses the platform's default action: a press
    /// over the surface starts no native drag or selection, and the surface
    /// has no context menu.
    pub open spec fn suppresses_default(self) -> bool {
        self is SurfacePointerDown || self is SurfaceContextMenu
    }

    /// What the listener reads from its raw input.
    pub open spec fn reading_of(self) -> Reading {
        match self {
            Listener::DocumentPointerUp | Listener::SurfacePointerDown => Reading::Button,
            Listener::DocumentPointerMove | Listener::SurfacePointerMove => Reading::Offset,
            Listener::SurfaceWheel => Reading::Wheel,
            _ => Reading::Nothing,
        }
    }

    /// The raw input that the listener hands to the normalizer when it was
    /// called and read `sample`.
    pub open spec fn input_of(self, sample: Sample) -> RawInput {
        match self {
            Listener::DocumentPointerUp => RawInput::DocumentPointerUp { button: sample.button },
            Listener::DocumentPointerOut => RawInput::DocumentPointerOut,
            Listener::DocumentPointerMove => RawInput::DocumentPointerMove { position: sample.offset },
            Listener::SurfacePointerMove => RawInput::SurfacePointerMove { position: sample.offset },
            Listener::SurfacePointerDown => RawInput::SurfacePointerDown { button: sample.button },
            Listener::SurfacePointerOver => RawInput::SurfacePointerOver,
            Listener::SurfacePointerOut => RawInput::SurfacePointerOut,
            Listener::SurfaceWheel => RawInput::SurfaceWheel {
                delta: sample.wheel_delta,
                unit: sample.wheel_unit,
            },
            Listener::SurfaceContextMenu => RawInput::SurfaceContextMenu,
        }
    }

    /// Tells where the listener is attached.
    pub fn scope(&self) -> (scope: Scope)
        ensures
            scope == self.scope_of(),
    {
        match self {
            Listener::DocumentPointerUp | Listener::DocumentPointerOut | Listener::DocumentPointerMove =>
                Scope::Document,
            _ => Scope::Surface,
        }
    }

    /// Gives the name of the raw input that the listener is attached for.
    pub fn event_name(&self) -> (name: &'static str)
        ensures
            name@ == self.name_of(),
    {
        match self {
            Listener::DocumentPointerUp => "pointerup",
            Listener::DocumentPointerOut | Listener::SurfacePointerOut => "pointerout",
            Listener::DocumentPointerMove | Listener::SurfacePointerMove => "pointermove",
            Listener::SurfacePointerDown => "pointerdown",
            Listener::SurfacePointerOver => "pointerover",
            Listener::SurfaceWheel => "wheel",
            Listener::SurfaceContextMenu => "contextmenu",
        }
    }

    /// Tells whether the listener suppresses the platform's default action.
    pub fn prevents_default(&self) -> (suppresses: bool)
        ensures
            suppresses == self.suppresses_default(),
    {
        match self {
            Listener::SurfacePointerDown | Listener::SurfaceContextMenu => true,
            _ => false,
        }
    }

    /// Tells what the listener reads from its raw input.
    pub fn reading(&self) -> (reading: Reading)
        ensures
            reading == self.reading_of(),
    {
        match self {
            Listener::DocumentPointerUp | Listener::SurfacePointerDown => Reading::Button,
            Listener::DocumentPointerMove | Listener::SurfacePointerMove => Reading::Offset,
            Listener::SurfaceWheel => Reading::Wheel,
            _ => Reading::Nothing,
        }
    }

    /// Makes the raw input that the listener hands to the normalizer.
    pub fn input(&self, sample: &Sample) -> (input: RawInput)
        ensures
            input == self.input_of(*sample),
    {
        match self {
            Listener::DocumentPointerUp => RawInput::DocumentPointerUp { button: sample.button },
            Listener::DocumentPointerOut => RawInput::DocumentPointerOut,
            Listener::DocumentPointerMove => RawInput::DocumentPointerMove { position: sample.offset },
            Listener::SurfacePointerMove => RawInput::SurfacePointerMove { position: sample.offset },
            Listener::SurfacePointerDown => RawInput::SurfacePointerDown { button: sample.button },
            Listener::SurfacePointerOver => RawInput::SurfacePointerOver,
            Listener::SurfacePointerOut => RawInput::SurfacePointerOut,
            Listener::SurfaceWheel => RawInput::SurfaceWheel {
                delta: sample.wheel_delta,
                unit: sample.wheel_unit,
            },
            Listener::SurfaceContextMenu => RawInput::SurfaceContextMenu,
        }
    }
}

/// The nine listeners, in the order in which they are attached.
pub open spec fn registered() -> Seq<Listener> {
    seq![
        Listener::DocumentPointerUp,
        Listener::DocumentPointerOut,
        Listener::DocumentPointerMove,
        Listener::SurfacePointerMove,
        Listener::SurfacePointerDown,
        Listener::SurfacePointerOver,
        Listener::SurfacePointerOut,
        Listener::SurfaceWheel,
        Listener::SurfaceContextMenu,
    ]
}

/// Lists the listeners to attach, in order.
pub fn register() -> (listeners: Vec<Listener>)
    ensures
        listeners@ == registered(),
{
    let mut listeners: Vec<Listener> = Vec::new();
    listeners.push(Listener::DocumentPointerUp);
    listeners.push(Listener::DocumentPointerOut);
    listeners.push(Listener::DocumentPointerMove);
    listeners.push(Listener::SurfacePointerMove);
    listeners.push(Listener::SurfacePointerDown);
    listeners.push(Listener::SurfacePointerOver);
    listeners.push(Listener::SurfacePointerOut);
    listeners.push(Listener::SurfaceWheel);
    listeners.push(Listener::SurfaceContextMenu);
    assert(listeners@ =~= registered());
    listeners
}

} // verus!
