use sim_bridge::event::{displacement, Event};
use sim_bridge::normalizer::{InputNormalizer, RawInput};

fn press(button: i16) -> Event {
    Event::MouseButton { pressed: true, button }
}

fn release(button: i16) -> Event {
    Event::MouseButton { pressed: false, button }
}

#[test]
fn fresh_normalizer_holds_nothing() {
    let n = InputNormalizer::new();
    assert_eq!(n.pressed_buttons(), Vec::<i16>::new());
    assert_eq!(n.document_last(), None);
    assert_eq!(n.surface_last(), None);
    assert!(!n.is_pressed(0));
}

#[test]
fn surface_enter_move_move_leave() {
    let mut n = InputNormalizer::new();
    let inputs = vec![
        RawInput::SurfacePointerOver,
        RawInput::SurfacePointerMove { position: (10, 10) },
        RawInput::SurfacePointerMove { position: (12, 11) },
        RawInput::SurfacePointerOut,
    ];
    let events = n.handle_all(&inputs);
    assert_eq!(
        events,
        vec![
            Event::CursorEntered,
            Event::CursorMoved { delta: None, position: (10, 10) },
            Event::CursorMoved { delta: Some((2, 1)), position: (12, 11) },
            Event::CursorLeft,
        ]
    );
    assert_eq!(n.surface_last(), Some((12, 11)));
}

#[test]
fn first_surface_move_has_no_delta_and_later_ones_have_the_difference() {
    let mut n = InputNormalizer::new();
    let positions = [(5, 7), (5, 7), (-3, 20), (100, -4), (0, 0)];
    let mut earlier: Option<(i32, i32)> = None;
    for p in positions {
        let event = n.surface_pointer_move(p);
        let delta = earlier.map(|(x, y)| (p.0 - x, p.1 - y));
        assert_eq!(event, Event::CursorMoved { delta, position: p });
        earlier = Some(p);
    }
}

#[test]
fn surface_tracker_keeps_its_position_across_leave_and_enter() {
    let mut n = InputNormalizer::new();
    assert_eq!(n.handle(RawInput::SurfacePointerMove { position: (1, 1) }).len(), 1);
    assert_eq!(n.handle(RawInput::SurfacePointerOut), vec![Event::CursorLeft]);
    assert_eq!(n.handle(RawInput::SurfacePointerOver), vec![Event::CursorEntered]);
    assert_eq!(
        n.handle(RawInput::SurfacePointerMove { position: (4, 6) }),
        vec![Event::CursorMoved { delta: Some((3, 5)), position: (4, 6) }]
    );
}

#[test]
fn document_motion_starts_with_the_second_sample() {
    let mut n = InputNormalizer::new();
    assert_eq!(n.document_pointer_move((3, 4)), None);
    assert_eq!(n.document_pointer_move((10, 1)), Some(Event::MouseMotion { delta: (7, -3) }));
    assert_eq!(n.document_pointer_move((10, 1)), Some(Event::MouseMotion { delta: (0, 0) }));
    assert_eq!(n.document_last(), Some((10, 1)));
}

#[test]
fn the_two_trackers_are_independent() {
    let mut n = InputNormalizer::new();
    assert_eq!(n.document_pointer_move((100, 100)), None);
    assert_eq!(
        n.surface_pointer_move((1, 2)),
        Event::CursorMoved { delta: None, position: (1, 2) }
    );
    assert_eq!(n.document_pointer_move((101, 99)), Some(Event::MouseMotion { delta: (1, -1) }));
    assert_eq!(
        n.surface_pointer_move((2, 2)),
        Event::CursorMoved { delta: Some((1, 0)), position: (2, 2) }
    );
}

#[test]
fn displacement_is_the_difference() {
    assert_eq!(displacement((10, 10), (12, 11)), (2, 1));
    assert_eq!(displacement((12, 11), (10, 10)), (-2, -1));
    assert_eq!(displacement((0, 0), (i32::MAX, i32::MIN)), (i32::MAX, i32::MIN));
}

#[test]
fn displacement_wraps_where_the_difference_does_not_fit() {
    assert_eq!(displacement((i32::MIN, 1), (i32::MAX, 0)), (-1, -1));
    assert_eq!(displacement((i32::MAX, 0), (i32::MIN, 0)), (1, 0));
    assert_eq!(displacement((1, 0), (i32::MIN, 0)), (i32::MAX, 0));
}

#[test]
fn press_puts_the_button_in_the_set_and_release_takes_it_out() {
    let mut n = InputNormalizer::new();
    assert_eq!(n.surface_pointer_down(2), press(2));
    assert!(n.is_pressed(2));
    assert!(!n.is_pressed(0));
    assert_eq!(n.document_pointer_up(2), Some(release(2)));
    assert!(!n.is_pressed(2));
    assert_eq!(n.document_pointer_up(2), None);
    assert_eq!(n.pressed_buttons(), Vec::<i16>::new());
}

#[test]
fn release_of_a_button_that_is_not_pressed_sends_nothing() {
    let mut n = InputNormalizer::new();
    n.surface_pointer_down(0);
    assert_eq!(n.handle(RawInput::DocumentPointerUp { button: 1 }), vec![]);
    assert_eq!(n.pressed_buttons(), vec![0]);
}

#[test]
fn a_second_press_is_sent_but_the_set_holds_the_button_once() {
    let mut n = InputNormalizer::new();
    assert_eq!(n.handle(RawInput::SurfacePointerDown { button: 0 }), vec![press(0)]);
    assert_eq!(n.handle(RawInput::SurfacePointerDown { button: 0 }), vec![press(0)]);
    assert_eq!(n.pressed_buttons(), vec![0]);
    assert_eq!(n.handle(RawInput::DocumentPointerUp { button: 0 }), vec![release(0)]);
    assert_eq!(n.handle(RawInput::DocumentPointerUp { button: 0 }), vec![]);
}

#[test]
fn leaving_the_document_releases_every_pressed_button_in_order() {
    let mut n = InputNormalizer::new();
    n.surface_pointer_down(2);
    n.surface_pointer_down(0);
    n.surface_pointer_down(-1);
    n.surface_pointer_down(0);
    assert_eq!(n.pressed_buttons(), vec![2, 0, -1]);
    assert_eq!(n.document_pointer_out(), vec![release(2), release(0), release(-1)]);
    assert_eq!(n.pressed_buttons(), Vec::<i16>::new());
    assert_eq!(n.document_pointer_out(), vec![]);
    assert_eq!(n.document_pointer_up(0), None);
}

#[test]
fn release_keeps_the_order_of_the_others() {
    let mut n = InputNormalizer::new();
    n.surface_pointer_down(1);
    n.surface_pointer_down(2);
    n.surface_pointer_down(3);
    assert_eq!(n.document_pointer_up(2), Some(release(2)));
    assert_eq!(n.pressed_buttons(), vec![1, 3]);
}

#[test]
fn wheel_is_passed_on_as_it_is() {
    let mut n = InputNormalizer::new();
    let delta = (1.5f64.to_bits(), (-120.0f64).to_bits());
    assert_eq!(
        n.handle(RawInput::SurfaceWheel { delta, unit: 1 }),
        vec![Event::MouseWheel { delta, unit: 1 }]
    );
    assert_eq!(n.surface_wheel(delta, 7), Event::MouseWheel { delta, unit: 7 });
}

#[test]
fn context_menu_sends_nothing() {
    let mut n = InputNormalizer::new();
    assert_eq!(n.handle(RawInput::SurfaceContextMenu), vec![]);
}

#[test]
fn presence_signals_keep_the_state() {
    let mut n = InputNormalizer::new();
    n.surface_pointer_down(1);
    assert_eq!(n.surface_pointer_over(), Event::CursorEntered);
    assert_eq!(n.surface_pointer_out(), Event::CursorLeft);
    assert_eq!(n.handle(RawInput::SurfacePointerOut), vec![Event::CursorLeft]);
    assert_eq!(n.pressed_buttons(), vec![1]);
}

#[test]
fn two_normalizers_do_not_interfere() {
    let mut a = InputNormalizer::new();
    let mut b = InputNormalizer::new();
    a.surface_pointer_down(0);
    a.surface_pointer_move((1, 1));
    assert!(!b.is_pressed(0));
    assert_eq!(
        b.surface_pointer_move((9, 9)),
        Event::CursorMoved { delta: None, position: (9, 9) }
    );
}

#[test]
fn other_input_between_surface_moves_does_not_disturb_the_deltas() {
    let mut n = InputNormalizer::new();
    let inputs = vec![
        RawInput::DocumentPointerMove { position: (500, 500) },
        RawInput::SurfacePointerDown { button: 0 },
        RawInput::SurfacePointerMove { position: (1, 1) },
        RawInput::DocumentPointerMove { position: (501, 502) },
        RawInput::SurfacePointerOut,
        RawInput::DocumentPointerUp { button: 0 },
        RawInput::SurfacePointerOver,
        RawInput::SurfacePointerMove { position: (4, -1) },
        RawInput::SurfaceContextMenu,
        RawInput::SurfacePointerMove { position: (4, 9) },
    ];
    let events = n.handle_all(&inputs);
    let cursor: Vec<Event> = events
        .iter()
        .copied()
        .filter(|e| matches!(e, Event::CursorMoved { .. }))
        .collect();
    assert_eq!(
        cursor,
        vec![
            Event::CursorMoved { delta: None, position: (1, 1) },
            Event::CursorMoved { delta: Some((3, -2)), position: (4, -1) },
            Event::CursorMoved { delta: Some((0, 10)), position: (4, 9) },
        ]
    );
    assert_eq!(
        events,
        vec![
            press(0),
            Event::CursorMoved { delta: None, position: (1, 1) },
            Event::MouseMotion { delta: (1, 2) },
            Event::CursorLeft,
            release(0),
            Event::CursorEntered,
            Event::CursorMoved { delta: Some((3, -2)), position: (4, -1) },
            Event::CursorMoved { delta: Some((0, 10)), position: (4, 9) },
        ]
    );
}

#[test]
fn handle_all_is_handle_on_each_input_in_turn() {
    let inputs = vec![
        RawInput::SurfacePointerDown { button: 1 },
        RawInput::SurfacePointerDown { button: 2 },
        RawInput::SurfacePointerMove { position: (7, 7) },
        RawInput::DocumentPointerOut,
        RawInput::DocumentPointerUp { button: 1 },
    ];
    let mut whole = InputNormalizer::new();
    let mut single = InputNormalizer::new();
    let all = whole.handle_all(&inputs);
    let mut one_by_one = Vec::new();
    for input in &inputs {
        one_by_one.extend(single.handle(*input));
    }
    assert_eq!(all, one_by_one);
    assert_eq!(all, vec![
        press(1),
        press(2),
        Event::CursorMoved { delta: None, position: (7, 7) },
        release(1),
        release(2),
    ]);
    assert_eq!(whole.pressed_buttons(), single.pressed_buttons());
    assert_eq!(whole.handle_all(&Vec::new()), vec![]);
}

#[test]
fn a_button_is_pressed_exactly_when_its_last_event_was_a_press() {
    let inputs = vec![
        RawInput::SurfacePointerDown { button: 0 },
        RawInput::SurfacePointerDown { button: 1 },
        RawInput::DocumentPointerUp { button: 0 },
        RawInput::SurfacePointerDown { button: 1 },
        RawInput::SurfacePointerDown { button: 2 },
        RawInput::DocumentPointerUp { button: 3 },
        RawInput::DocumentPointerOut,
        RawInput::SurfacePointerDown { button: 3 },
        RawInput::DocumentPointerUp { button: 1 },
    ];
    let mut n = InputNormalizer::new();
    let mut sent: Vec<Event> = Vec::new();
    for input in inputs {
        sent.extend(n.handle(input));
        for button in -1..5i16 {
            let last = sent.iter().rev().find_map(|e| match e {
                Event::MouseButton { pressed, button: b } if *b == button => Some(*pressed),
                _ => None,
            });
            assert_eq!(n.is_pressed(button), last == Some(true));
        }
    }
    assert_eq!(n.pressed_buttons(), vec![3]);
}
