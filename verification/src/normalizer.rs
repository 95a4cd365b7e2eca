//! The input normalizer: turns the raw, high-frequency stream of pointer and
//! wheel input into events, keeping the little state that this needs: the set
//! of pressed buttons and two independent "last position" trackers, one for
//! the whole document and one for the surface.

use vstd::prelude::*;
use crate::event::{Event, Point, delta_between, delta_is_exact, displacement};

verus! {

/// One raw input sample, as the user interface delivers it.
#[derive(Clone, Copy, Debug, PartialEq, Eq)]
pub enum RawInput {
    /// The pointer left the whole document.
    DocumentPointerOut,
    /// A button was released anywhere in the document.
    DocumentPointerUp { button: i16 },
    /// The pointer moved anywhere in the document.
    DocumentPointerMove { position: Point },
    /// The pointer moved over the surface; `position` is surface-local.
    SurfacePointerMove { position: Point },
    /// A button was pressed over the surface.
    SurfacePointerDown { button: i16 },
    /// The pointer came over the surface.
    SurfacePointerOver,
    /// The pointer left the surface.
    SurfacePointerOut,
    /// The wheel turned over the surface.
    SurfaceWheel { delta: (u64, u64), unit: u32 },
    /// The context menu was asked for over the surface.
    SurfaceContextMenu,
}

/// The release event of one button.
pub open spec fn release_of(button: i16) -> Event {
    Event::MouseButton { pressed: false, button }
}

/// The press event of one button.
pub open spec fn press_of(button: i16) -> Event {
    Event::MouseButton { pressed: true, button }
}

/// One release event for each of `buttons`, in their order.
pub open spec fn releases(buttons: Seq<i16>) -> Seq<Event> {
    Seq::new(buttons.len(), |i: int| release_of(buttons[i]))
}

/// Some index at which `button` stands in `buttons`, if it stands there.
pub open spec fn position_of(buttons: Seq<i16>, button: i16) -> int {
    choose|i: int| 0 <= i < buttons.len() && buttons[i] == button
}

/// The mathematical state of a normalizer.
pub struct Tracking {
    /// The pressed buttons, each once, in the order in which they went down.
    pub pressed: Seq<i16>,
    /// The last position seen by the document-wide move tracker.
    pub document_last: Option<Point>,
    /// The last position seen by the surface move tracker.
    pub surface_last: Option<Point>,
}

impl Tracking {
    /// The state of a fresh normalizer.
    pub open spec fn initial() -> Tracking {
        Tracking { pressed: Seq::empty(), document_last: None, surface_last: None }
    }

    /// No button stands twice in the pressed set.
    pub open spec fn wf(self) -> bool {
        self.pressed.no_duplicates()
    }

    /// Whether `button` is in the pressed set.
    pub open spec fn is_pressed(self, button: i16) -> bool {
        self.pressed.contains(button)
    }

    /// The state after `button` went down: it joins the set unless it is there.
    pub open spec fn press(self, button: i16) -> Tracking {
        if self.pressed.contains(button) {
            self
        } else {
            Tracking { pressed: self.pressed.push(button), ..self }
        }
    }

    /// The state after `button` went up: it leaves the set if it is there.
    pub open spec fn release(self, button: i16) -> Tracking {
        if self.pressed.contains(button) {
            Tracking { pressed: self.pressed.remove(position_of(self.pressed, button)), ..self }
        } else {
            self
        }
    }

    /// The state after `input`, and the events that it gives rise to.
    pub open spec fn step(self, input: RawInput) -> (Tracking, Seq<Event>) {
        match input {
            RawInput::DocumentPointerOut => (
                Tracking { pressed: Seq::empty(), ..self },
                releases(self.pressed),
            ),
            RawInput::DocumentPointerUp { button } => (
                self.release(button),
                if self.pressed.contains(button) {
                    seq![release_of(button)]
                } else {
                    Seq::empty()
                },
            ),
            RawInput::DocumentPointerMove { position } => (
                Tracking { document_last: Some(position), ..self },
                match self.document_last {
                    Some(last) => seq![Event::MouseMotion { delta: delta_between(last, position) }],
                    None => Seq::empty(),
                },
            ),
            RawInput::SurfacePointerMove { position } => (
                Tracking { surface_last: Some(position), ..self },
                seq![
                    Event::CursorMoved {
                        delta: match self.surface_last {
                            Some(last) => Some(delta_between(last, position)),
                            None => None,
                        },
                        position,
                    },
                ],
            ),
            RawInput::SurfacePointerDown { button } => (self.press(button), seq![press_of(button)]),
            RawInput::SurfacePointerOver => (self, seq![Event::CursorEntered]),
            RawInput::SurfacePointerOut => (self, seq![Event::CursorLeft]),
            RawInput::SurfaceWheel { delta, unit } => (self, seq![Event::MouseWheel { delta, unit }]),
            RawInput::SurfaceContextMenu => (self, Seq::empty()),
        }
    }

    /// The state after all of `inputs`, first to last, and the events that
    /// they give rise to, in order.
    pub open spec fn run(self, inputs: Seq<RawInput>) -> (Tracking, Seq<Event>)
        decreases inputs.len(),
    {
        if inputs.len() == 0 {
            (self, Seq::empty())
        } else {
            let before = self.run(inputs.drop_last());
            let last = before.0.step(inputs.last());
            (last.0, before.1 + last.1)
        }
    }
}

/// Taking one element out of a sequence without duplicates leaves a sequence
/// without duplicates that no longer holds the element.
pub proof fn lemma_remove_keeps_distinct(buttons: Seq<i16>, at: int)
    requires
        buttons.no_duplicates(),
        0 <= at < buttons.len(),
    ensures
        buttons.remove(at).no_duplicates(),
        !buttons.remove(at).contains(buttons[at]),
        forall|b: i16| b != buttons[at] ==> (buttons.remove(at).contains(b) <==> buttons.contains(b)),
{
    let rest = buttons.remove(at);
    assert forall|i: int, j: int| 0 <= i < rest.len() && 0 <= j < rest.len() && i != j implies rest[i]
        != rest[j] by {
        let oi = if i < at { i } else { i + 1 };
        let oj = if j < at { j } else { j + 1 };
        assert(rest[i] == buttons[oi] && rest[j] == buttons[oj]);
    }
    if rest.contains(buttons[at]) {
        let i = choose|i: int| 0 <= i < rest.len() && rest[i] == buttons[at];
        let oi = if i < at { i } else { i + 1 };
        assert(rest[i] == buttons[oi]);
    }
    assert forall|b: i16| b != buttons[at] implies (rest.contains(b) <==> buttons.contains(b)) by {
        if rest.contains(b) {
            let i = choose|i: int| 0 <= i < rest.len() && rest[i] == b;
            let oi = if i < at { i } else { i + 1 };
            assert(buttons[oi] == b);
        }
        if buttons.contains(b) {
            let oi = choose|i: int| 0 <= i < buttons.len() && buttons[i] == b;
            let i = if oi < at { oi } else { oi - 1 };
            assert(rest[i] == b);
        }
    }
}

/// Every step keeps the pressed set free of duplicates.
pub proof fn lemma_step_keeps_wf(state: Tracking, input: RawInput)
    requires
        state.wf(),
    ensures
        state.step(input).0.wf(),
{
    match input {
        RawInput::DocumentPointerUp { button } => {
            if state.pressed.contains(button) {
                lemma_remove_keeps_distinct(state.pressed, position_of(state.pressed, button));
            }
        },
        RawInput::SurfacePointerDown { button } => {
            if !state.pressed.contains(button) {
                let grown = state.pressed.push(button);
                assert forall|i: int, j: int|
                    0 <= i < grown.len() && 0 <= j < grown.len() && i != j implies grown[i]
                    != grown[j] by {
                    if i == state.pressed.len() {
                        assert(state.pressed[j] == grown[j]);
                    } else if j == state.pressed.len() {
                        assert(state.pressed[i] == grown[i]);
                    }
                }
            }
        },
        _ => {},
    }
}

/// The raw inputs of a pointer that moves over the surface through
/// `positions`, one after the other.
pub open spec fn surface_moves(positions: Seq<Point>) -> Seq<RawInput> {
    Seq::new(positions.len(), |i: int| RawInput::SurfacePointerMove { position: positions[i] })
}

/// The event owed for the `i`-th of a run of surface moves through
/// `positions` that a tracker with no earlier position takes.
pub open spec fn cursor_move_at(positions: Seq<Point>, i: int) -> Event {
    Event::CursorMoved {
        delta: if i == 0 {
            None
        } else {
            Some(delta_between(positions[i - 1], positions[i]))
        },
        position: positions[i],
    }
}

/// A surface tracker that has no earlier position and takes a run of moves
/// answers each with one cursor event: the first without a displacement,
/// each later one with the displacement from the position just before it.
/// Where that displacement fits in a `Point`, it is the exact difference.
pub proof fn lemma_surface_move_deltas(state: Tracking, positions: Seq<Point>)
    requires
        state.surface_last is None,
    ensures
        state.run(surface_moves(positions)).1.len() == positions.len(),
        forall|i: int|
            0 <= i < positions.len() ==> #[trigger] state.run(surface_moves(positions)).1[i]
                == cursor_move_at(positions, i),
        forall|i: int|
            0 < i < positions.len() && delta_is_exact(positions[i - 1], positions[i]) ==> {
                &&& (#[trigger] cursor_move_at(positions, i)) matches Event::CursorMoved {
                    delta: Some(d),
                    ..
                }
                &&& d.0 == positions[i].0 - positions[i - 1].0
                &&& d.1 == positions[i].1 - positions[i - 1].1
            },
        state.run(surface_moves(positions)).0 == (Tracking {
            surface_last: if positions.len() == 0 {
                None
            } else {
                Some(positions.last())
            },
            ..state
        }),
    decreases positions.len(),
{
    if positions.len() > 0 {
        let shorter = positions.drop_last();
        lemma_surface_move_deltas(state, shorter);
        assert(surface_moves(positions).drop_last() == surface_moves(shorter));
        let before = state.run(surface_moves(shorter));
        let events = state.run(surface_moves(positions)).1;
        assert forall|i: int| 0 <= i < positions.len() implies #[trigger] events[i]
            == cursor_move_at(positions, i) by {
            if i < shorter.len() {
                assert(events[i] == before.1[i]);
                assert(cursor_move_at(shorter, i) == cursor_move_at(positions, i));
            }
        }
    }
}

/// The positions of the surface moves among `inputs`, in their order.
pub open spec fn surface_positions(inputs: Seq<RawInput>) -> Seq<Point>
    decreases inputs.len(),
{
    if inputs.len() == 0 {
        Seq::empty()
    } else {
        let before = surface_positions(inputs.drop_last());
        match inputs.last() {
            RawInput::SurfacePointerMove { position } => before.push(position),
            _ => before,
        }
    }
}

/// The cursor events among `events`, in their order.
pub open spec fn cursor_moves(events: Seq<Event>) -> Seq<Event>
    decreases events.len(),
{
    if events.len() == 0 {
        Seq::empty()
    } else {
        let before = cursor_moves(events.drop_last());
        if events.last() is CursorMoved {
            before.push(events.last())
        } else {
            before
        }
    }
}

/// The cursor events owed for a pointer that moves over the surface through
/// `positions`, to a tracker with no earlier position.
pub open spec fn cursor_moves_through(positions: Seq<Point>) -> Seq<Event> {
    Seq::new(positions.len(), |i: int| cursor_move_at(positions, i))
}

/// The cursor events of two runs of events, one after the other, are those
/// of the first and then those of the second.
pub proof fn lemma_cursor_moves_append(first: Seq<Event>, second: Seq<Event>)
    ensures
        cursor_moves(first + second) == cursor_moves(first) + cursor_moves(second),
    decreases second.len(),
{
    if second.len() == 0 {
        assert(first + second =~= first);
        assert(cursor_moves(first) + cursor_moves(second) =~= cursor_moves(first));
    } else {
        lemma_cursor_moves_append(first, second.drop_last());
        assert((first + second).drop_last() =~= first + second.drop_last());
        assert((first + second).last() == second.last());
        assert(cursor_moves(first + second) =~= cursor_moves(first) + cursor_moves(second));
    }
}

/// There is no cursor event among releases.
pub proof fn lemma_no_cursor_moves_in_releases(buttons: Seq<i16>)
    ensures
        cursor_moves(releases(buttons)) == Seq::<Event>::empty(),
    decreases buttons.len(),
{
    if buttons.len() > 0 {
        lemma_no_cursor_moves_in_releases(buttons.drop_last());
        assert(releases(buttons).drop_last() =~= releases(buttons.drop_last()));
    }
}

/// The cursor events of one step: the one event of a surface move, and none
/// of any other input.
pub proof fn lemma_cursor_moves_of_step(state: Tracking, input: RawInput)
    ensures
        cursor_moves(state.step(input).1) == if input is SurfacePointerMove {
            state.step(input).1
        } else {
            Seq::<Event>::empty()
        },
{
    let events = state.step(input).1;
    match input {
        RawInput::DocumentPointerOut => {
            lemma_no_cursor_moves_in_releases(state.pressed);
        },
        _ => {
            if events.len() == 1 {
                assert(events.drop_last() =~= Seq::<Event>::empty());
                assert(cursor_moves(events.drop_last()) == Seq::<Event>::empty());
                if events.last() is CursorMoved {
                    assert(cursor_moves(events) =~= events);
                }
            }
        },
    }
}

/// Whatever else happens in between, a surface tracker that starts with no
/// earlier position answers the surface moves of a run of inputs, and only
/// them, with cursor events: the first without a displacement, each later
/// one with the displacement from the surface position just before it.
/// Entering and leaving the surface do not reset the tracker.
pub proof fn lemma_cursor_moves_of_run(state: Tracking, inputs: Seq<RawInput>)
    requires
        state.surface_last is None,
    ensures
        cursor_moves(state.run(inputs).1) == cursor_moves_through(surface_positions(inputs)),
        state.run(inputs).0.surface_last == if surface_positions(inputs).len() == 0 {
            None
        } else {
            Some(surface_positions(inputs).last())
        },
    decreases inputs.len(),
{
    if inputs.len() == 0 {
        assert(cursor_moves_through(surface_positions(inputs)) =~= Seq::<Event>::empty());
    } else {
        let shorter = inputs.drop_last();
        lemma_cursor_moves_of_run(state, shorter);
        let before = state.run(shorter);
        let last = before.0.step(inputs.last());
        lemma_cursor_moves_append(before.1, last.1);
        lemma_cursor_moves_of_step(before.0, inputs.last());
        let positions = surface_positions(inputs);
        match inputs.last() {
            RawInput::SurfacePointerMove { position } => {
                let earlier = surface_positions(shorter);
                assert(positions == earlier.push(position));
                assert forall|i: int| 0 <= i < earlier.len() implies cursor_move_at(earlier, i)
                    == cursor_move_at(positions, i) by {}
                assert(cursor_moves_through(positions) =~= cursor_moves_through(earlier) + last.1);
            },
            _ => {
                assert(cursor_moves(before.1) + Seq::<Event>::empty() =~= cursor_moves(before.1));
            },
        }
    }
}

/// Each piece of state belongs to its own listeners: only a surface move
/// changes the surface tracker, only a document move changes the document
/// tracker, and only a press, a release and leaving the document change the
/// pressed set.
pub proof fn lemma_state_is_private(state: Tracking, input: RawInput)
    ensures
        !(input is SurfacePointerMove) ==> state.step(input).0.surface_last == state.surface_last,
        !(input is DocumentPointerMove) ==> state.step(input).0.document_last == state.document_last,
        !(input is SurfacePointerDown || input is DocumentPointerUp || input is DocumentPointerOut)
            ==> state.step(input).0.pressed == state.pressed,
{
}

/// Taking two runs of inputs one after the other is taking the second from
/// the state that the first leaves, and the events come in the same order.
pub proof fn lemma_run_append(state: Tracking, first: Seq<RawInput>, second: Seq<RawInput>)
    ensures
        state.run(first + second).0 == state.run(first).0.run(second).0,
        state.run(first + second).1 == state.run(first).1 + state.run(first).0.run(second).1,
    decreases second.len(),
{
    let middle = state.run(first);
    if second.len() == 0 {
        assert(first + second =~= first);
        assert(middle.1 + middle.0.run(second).1 =~= middle.1);
    } else {
        lemma_run_append(state, first, second.drop_last());
        assert((first + second).drop_last() =~= first + second.drop_last());
        assert((first + second).last() == second.last());
        let before = middle.0.run(second.drop_last());
        let last = before.0.step(second.last());
        assert(state.run(first + second).1 =~= middle.1 + (before.1 + last.1));
    }
}

/// Every run of inputs keeps the pressed set free of duplicates.
pub proof fn lemma_run_keeps_wf(state: Tracking, inputs: Seq<RawInput>)
    requires
        state.wf(),
    ensures
        state.run(inputs).0.wf(),
    decreases inputs.len(),
{
    if inputs.len() > 0 {
        lemma_run_keeps_wf(state, inputs.drop_last());
        lemma_step_keeps_wf(state.run(inputs.drop_last()).0, inputs.last());
    }
}

/// What the last button event for `button` among `events` says: pressed or
/// not; nothing where there is no such event.
pub open spec fn last_transition(events: Seq<Event>, button: i16) -> Option<bool>
    decreases events.len(),
{
    if events.len() == 0 {
        None
    } else if events.last() == press_of(button) {
        Some(true)
    } else if events.last() == release_of(button) {
        Some(false)
    } else {
        last_transition(events.drop_last(), button)
    }
}

/// After a run of releases, a button among them was last released, and for
/// any other button nothing has changed.
pub proof fn lemma_last_transition_after_releases(events: Seq<Event>, released: Seq<i16>, button: i16)
    ensures
        last_transition(events + releases(released), button) == if released.contains(button) {
            Some(false)
        } else {
            last_transition(events, button)
        },
    decreases released.len(),
{
    if released.len() == 0 {
        assert(events + releases(released) =~= events);
    } else {
        let all = events + releases(released);
        let shorter = released.drop_last();
        lemma_last_transition_after_releases(events, shorter, button);
        assert(all.drop_last() =~= events + releases(shorter));
        assert(all.last() == release_of(released.last()));
        if released.last() == button {
            assert(released[released.len() - 1] == button);
        } else {
            if released.contains(button) {
                let i = choose|i: int| 0 <= i < released.len() && released[i] == button;
                assert(shorter[i] == button);
            }
            if shorter.contains(button) {
                let i = choose|i: int| 0 <= i < shorter.len() && shorter[i] == button;
                assert(released[i] == button);
            }
        }
    }
}

/// From a state with no button pressed, after any run of inputs, a button is
/// in the pressed set exactly when the last button event sent for it was a
/// press: every press that the set remembers is still unanswered, and no
/// release is ever owed that the set does not remember.
pub proof fn lemma_pressed_set_matches_events(state: Tracking, inputs: Seq<RawInput>, button: i16)
    requires
        state.pressed.len() == 0,
    ensures
        state.run(inputs).0.is_pressed(button) <==> last_transition(state.run(inputs).1, button)
            == Some(true),
    decreases inputs.len(),
{
    if inputs.len() > 0 {
        let shorter = inputs.drop_last();
        lemma_pressed_set_matches_events(state, shorter, button);
        lemma_run_keeps_wf(state, shorter);
        let before = state.run(shorter);
        let last = before.0.step(inputs.last());
        let all = before.1 + last.1;
        lemma_step_keeps_wf(before.0, inputs.last());
        if last.1.len() == 1 {
            assert(all.drop_last() =~= before.1);
            assert(all.last() == last.1[0]);
        } else if last.1.len() == 0 {
            assert(all =~= before.1);
        }
        match inputs.last() {
            RawInput::DocumentPointerOut => {
                lemma_last_transition_after_releases(before.1, before.0.pressed, button);
            },
            RawInput::DocumentPointerUp { button: up } => {
                if before.0.pressed.contains(up) {
                    let at = position_of(before.0.pressed, up);
                    lemma_remove_keeps_distinct(before.0.pressed, at);
                }
            },
            RawInput::SurfacePointerDown { button: down } => {
                if !before.0.pressed.contains(down) {
                    let grown = before.0.pressed.push(down);
                    assert(grown[grown.len() - 1] == down);
                    if grown.contains(button) && button != down {
                        let i = choose|i: int| 0 <= i < grown.len() && grown[i] == button;
                        assert(before.0.pressed[i] == button);
                    }
                    if before.0.pressed.contains(button) {
                        let i = choose|i: int|
                            0 <= i < before.0.pressed.len() && before.0.pressed[i] == button;
                        assert(grown[i] == button);
                    }
                }
            },
            _ => {},
        }
    }
}

/// A button that goes down over the surface is in the pressed set. When it
/// then goes up, it leaves the set and exactly one release is sent for it.
pub proof fn lemma_press_then_release(state: Tracking, button: i16)
    requires
        state.wf(),
    ensures
        ({
            let down = state.step(RawInput::SurfacePointerDown { button });
            let up = down.0.step(RawInput::DocumentPointerUp { button });
            &&& down.0.wf()
            &&& down.0.is_pressed(button)
            &&& up.0.wf()
            &&& !up.0.is_pressed(button)
            &&& up.1 == seq![release_of(button)]
        }),
{
    let down = state.step(RawInput::SurfacePointerDown { button });
    lemma_step_keeps_wf(state, RawInput::SurfacePointerDown { button });
    if !state.pressed.contains(button) {
        assert(down.0.pressed[state.pressed.len() as int] == button);
    }
    lemma_remove_keeps_distinct(down.0.pressed, position_of(down.0.pressed, button));
}

/// A release of a button that is not in the pressed set changes nothing and
/// sends nothing.
pub proof fn lemma_release_of_unpressed(state: Tracking, button: i16)
    requires
        !state.is_pressed(button),
    ensures
        state.step(RawInput::DocumentPointerUp { button }) == (state, Seq::<Event>::empty()),
{
}

/// When the pointer leaves the document, the pressed set is emptied, and one
/// release is sent for each button that was in it, in the set's order.
pub proof fn lemma_document_out_drains(state: Tracking)
    ensures
        ({
            let out = state.step(RawInput::DocumentPointerOut);
            &&& out.0.wf()
            &&& forall|button: i16| !out.0.is_pressed(button)
            &&& out.1.len() == state.pressed.len()
            &&& forall|i: int| 0 <= i < state.pressed.len() ==> out.1[i] == release_of(state.pressed[i])
        }),
{
}

/// A button that goes down over the surface has its press sent whether or
/// not it is in the pressed set already; the set itself holds it once.
pub proof fn lemma_press_always_sent(state: Tracking, button: i16)
    requires
        state.wf(),
    ensures
        state.step(RawInput::SurfacePointerDown { button }).1 == seq![press_of(button)],
        state.is_pressed(button) ==> state.step(RawInput::SurfacePointerDown { button }).0 == state,
        state.step(RawInput::SurfacePointerDown { button }).0.wf(),
{
    lemma_step_keeps_wf(state, RawInput::SurfacePointerDown { button });
}

/// The foreground's input state: which buttons are down, and where each of
/// the two move trackers last saw the pointer.
pub struct InputNormalizer {
    pressed: Vec<i16>,
    document_last: Option<Point>,
    surface_last: Option<Point>,
}

impl View for InputNormalizer {
    type V = Tracking;

    closed spec fn view(&self) -> Tracking {
        Tracking {
            pressed: self.pressed@,
            document_last: self.document_last,
            surface_last: self.surface_last,
        }
    }
}

impl InputNormalizer {
    /// No button is in the pressed set twice. Every normalizer keeps to this.
    #[verifier::type_invariant]
    spec fn distinct(self) -> bool {
        self.pressed@.no_duplicates()
    }

    /// The invariant of a normalizer, over its mathematical state: no button
    /// is in the pressed set twice.
    pub open spec fn wf(&self) -> bool {
        self@.wf()
    }

    /// A normalizer that has seen no input.
    pub fn new() -> (fresh: InputNormalizer)
        ensures
            fresh.wf(),
            fresh@ == Tracking::initial(),
    {
        InputNormalizer { pressed: Vec::new(), document_last: None, surface_last: None }
    }

    /// Whether `button` is in the pressed set.
    pub fn is_pressed(&self, button: i16) -> (held: bool)
        ensures
            held == self@.is_pressed(button),
    {
        self.find(button).is_some()
    }

    /// The pressed buttons, in the order in which they went down.
    pub fn pressed_buttons(&self) -> (buttons: Vec<i16>)
        ensures
            buttons@ == self@.pressed,
    {
        let mut buttons: Vec<i16> = Vec::new();
        let mut i: usize = 0;
        while i < self.pressed.len()
            invariant
                i <= self.pressed.len(),
                buttons@ == self.pressed@.take(i as int),
            decreases self.pressed.len() - i,
        {
            buttons.push(self.pressed[i]);
            assert(self.pressed@.take(i + 1) == self.pressed@.take(i as int).push(self.pressed@[i as int]));
            i += 1;
        }
        assert(self.pressed@.take(i as int) == self.pressed@);
        buttons
    }

    /// The last position that the document-wide move tracker saw.
    pub fn document_last(&self) -> (last: Option<Point>)
        ensures
            last == self@.document_last,
    {
        self.document_last
    }

    /// The last position that the surface move tracker saw.
    pub fn surface_last(&self) -> (last: Option<Point>)
        ensures
            last == self@.surface_last,
    {
        self.surface_last
    }

    /// The first index at which `button` stands in the pressed set.
    fn find(&self, button: i16) -> (found: Option<usize>)
        ensures
            found.is_some() == self@.pressed.contains(button),
            found matches Some(i) ==> i < self@.pressed.len() && self@.pressed[i as int] == button,
    {
        let mut i: usize = 0;
        while i < self.pressed.len()
            invariant
                i <= self.pressed.len(),
                forall|j: int| 0 <= j < i ==> self.pressed@[j] != button,
            decreases self.pressed.len() - i,
        {
            if self.pressed[i] == button {
                return Some(i);
            }
            i += 1;
        }
        None
    }

    /// The pointer left the whole document: every pressed button is released,
    /// in the order in which the buttons went down, and the set is empty.
    pub fn document_pointer_out(&mut self) -> (events: Vec<Event>)
        ensures
            final(self).wf(),
            final(self)@ == old(self)@.step(RawInput::DocumentPointerOut).0,
            events@ == old(self)@.step(RawInput::DocumentPointerOut).1,
            events@ == releases(old(self)@.pressed),
            final(self)@.pressed.len() == 0,
    {
        proof {
            use_type_invariant(&*self);
        }
        let mut events: Vec<Event> = Vec::new();
        let mut i: usize = 0;
        while i < self.pressed.len()
            invariant
                i <= self.pressed.len(),
                *self == *old(self),
                events@ == releases(self.pressed@.take(i as int)),
            decreases self.pressed.len() - i,
        {
            events.push(Event::MouseButton { pressed: false, button: self.pressed[i] });
            assert(self.pressed@.take(i + 1) == self.pressed@.take(i as int).push(self.pressed@[i as int]));
            assert(events@ == releases(self.pressed@.take(i + 1)));
            i += 1;
        }
        assert(self.pressed@.take(i as int) == self.pressed@);
        self.pressed = Vec::new();
        assert(self@.pressed == Seq::<i16>::empty());
        events
    }

    /// A button was released somewhere in the document: if it is in the
    /// pressed set it leaves the set and its release is the result; if not,
    /// nothing changes and there is no event.
    pub fn document_pointer_up(&mut self, button: i16) -> (event: Option<Event>)
        ensures
            final(self).wf(),
            final(self)@ == old(self)@.release(button),
            !final(self)@.is_pressed(button),
            event == if old(self)@.is_pressed(button) {
                Some(release_of(button))
            } else {
                None
            },
            forall|other: i16| other != button ==>
                (final(self)@.is_pressed(other) <==> old(self)@.is_pressed(other)),
    {
        proof {
            use_type_invariant(&*self);
        }
        match self.find(button) {
            Some(i) => {
                proof {
                    let at = position_of(self@.pressed, button);
                    assert(self@.pressed[i as int] == button);
                    assert(at == i);
                    lemma_remove_keeps_distinct(self@.pressed, at);
                }
                let mut pressed: Vec<i16> = Vec::new();
                core::mem::swap(&mut self.pressed, &mut pressed);
                pressed.remove(i);
                self.pressed = pressed;
                Some(Event::MouseButton { pressed: false, button })
            },
            None => None,
        }
    }

    /// The pointer moved somewhere in the document: the document-wide tracker
    /// takes the position, and once it has an earlier one the motion since
    /// then is the result.
    pub fn document_pointer_move(&mut self, position: Point) -> (event: Option<Event>)
        ensures
            final(self).wf(),
            final(self)@ == (Tracking { document_last: Some(position), ..old(self)@ }),
            event == match old(self)@.document_last {
                Some(last) => Some(Event::MouseMotion { delta: delta_between(last, position) }),
                None => None,
            },
    {
        proof {
            use_type_invariant(&*self);
        }
        let before = self.document_last;
        self.document_last = Some(position);
        match before {
            Some(last) => Some(Event::MouseMotion { delta: displacement(last, position) }),
            None => None,
        }
    }

    /// The pointer moved over the surface: the surface tracker takes the
    /// position, and the result carries it, with the displacement from the
    /// tracker's earlier position where it had one.
    pub fn surface_pointer_move(&mut self, position: Point) -> (event: Event)
        ensures
            final(self).wf(),
            final(self)@ == (Tracking { surface_last: Some(position), ..old(self)@ }),
            event == (Event::CursorMoved {
                delta: match old(self)@.surface_last {
                    Some(last) => Some(delta_between(last, position)),
                    None => None,
                },
                position,
            }),
    {
        proof {
            use_type_invariant(&*self);
        }
        let before = self.surface_last;
        self.surface_last = Some(position);
        let delta = match before {
            Some(last) => Some(displacement(last, position)),
            None => None,
        };
        Event::CursorMoved { delta, position }
    }

    /// A button went down over the surface: it is in the pressed set
    /// afterwards, and its press is the result whether or not it was in the
    /// set before.
    pub fn surface_pointer_down(&mut self, button: i16) -> (event: Event)
        ensures
            final(self).wf(),
            final(self)@ == old(self)@.press(button),
            final(self)@.is_pressed(button),
            event == press_of(button),
            forall|other: i16| other != button ==>
                (final(self)@.is_pressed(other) <==> old(self)@.is_pressed(other)),
    {
        proof {
            use_type_invariant(&*self);
            lemma_step_keeps_wf(self@, RawInput::SurfacePointerDown { button });
        }
        if self.find(button).is_none() {
            let mut pressed: Vec<i16> = Vec::new();
            core::mem::swap(&mut self.pressed, &mut pressed);
            pressed.push(button);
            self.pressed = pressed;
            proof {
                let grown = self@.pressed;
                assert(grown[grown.len() - 1] == button);
                assert forall|other: i16| other != button implies (grown.contains(other)
                    <==> old(self)@.pressed.contains(other)) by {
                    if grown.contains(other) {
                        let k = choose|k: int| 0 <= k < grown.len() && grown[k] == other;
                        assert(old(self)@.pressed[k] == other);
                    }
                    if old(self)@.pressed.contains(other) {
                        let k = choose|k: int|
                            0 <= k < old(self)@.pressed.len() && old(self)@.pressed[k] == other;
                        assert(grown[k] == other);
                    }
                }
            }
        }
        Event::MouseButton { pressed: true, button }
    }

    /// The pointer came over the surface.
    pub fn surface_pointer_over(&self) -> (event: Event)
        ensures
            event == Event::CursorEntered,
    {
        Event::CursorEntered
    }

    /// The pointer left the surface.
    pub fn surface_pointer_out(&self) -> (event: Event)
        ensures
            event == Event::CursorLeft,
    {
        Event::CursorLeft
    }

    /// The wheel turned over the surface: the sample is passed on as it is.
    pub fn surface_wheel(&self, delta: (u64, u64), unit: u32) -> (event: Event)
        ensures
            event == (Event::MouseWheel { delta, unit }),
    {
        Event::MouseWheel { delta, unit }
    }

    /// Takes one raw input sample: updates the state and returns the events
    /// to send, in order.
    pub fn handle(&mut self, input: RawInput) -> (events: Vec<Event>)
        ensures
            final(self).wf(),
            final(self)@ == old(self)@.step(input).0,
            events@ == old(self)@.step(input).1,
    {
        proof {
            use_type_invariant(&*self);
        }
        let mut events: Vec<Event> = Vec::new();
        match input {
            RawInput::DocumentPointerOut => {
                events = self.document_pointer_out();
            },
            RawInput::DocumentPointerUp { button } => {
                if let Some(event) = self.document_pointer_up(button) {
                    events.push(event);
                }
            },
            RawInput::DocumentPointerMove { position } => {
                if let Some(event) = self.document_pointer_move(position) {
                    events.push(event);
                }
            },
            RawInput::SurfacePointerMove { position } => {
                events.push(self.surface_pointer_move(position));
            },
            RawInput::SurfacePointerDown { button } => {
                events.push(self.surface_pointer_down(button));
            },
            RawInput::SurfacePointerOver => {
                events.push(self.surface_pointer_over());
            },
            RawInput::SurfacePointerOut => {
                events.push(self.surface_pointer_out());
            },
            RawInput::SurfaceWheel { delta, unit } => {
                events.push(self.surface_wheel(delta, unit));
            },
            RawInput::SurfaceContextMenu => {},
        }
        assert(events@ =~= old(self)@.step(input).1);
        events
    }

    /// Takes a run of raw input samples, first to last, and returns all the
    /// events to send, in order.
    pub fn handle_all(&mut self, inputs: &Vec<RawInput>) -> (events: Vec<Event>)
        ensures
            final(self).wf(),
            final(self)@ == old(self)@.run(inputs@).0,
            events@ == old(self)@.run(inputs@).1,
    {
        proof {
            use_type_invariant(&*self);
        }
        let mut events: Vec<Event> = Vec::new();
        let mut i: usize = 0;
        while i < inputs.len()
            invariant
                i <= inputs.len(),
                self.wf(),
                self@ == old(self)@.run(inputs@.take(i as int)).0,
                events@ == old(self)@.run(inputs@.take(i as int)).1,
            decreases inputs.len() - i,
        {
            let mut more = self.handle(inputs[i]);
            events.append(&mut more);
            proof {
                assert(inputs@.take(i + 1).drop_last() == inputs@.take(i as int));
                assert(inputs@.take(i + 1).last() == inputs@[i as int]);
            }
            i += 1;
        }
        assert(inputs@.take(i as int) == inputs@);
        events
    }
}

} // verus!
