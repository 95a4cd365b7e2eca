use sim_bridge::event::Event;
use sim_bridge::host::{
    after_readiness_query, button_state, can_translate, carries_target, pointer_button,
    primary_target, scroll_unit, tick_period_millis, translate, ButtonState, InitStep,
    Notification, PointerButton, ScrollUnit, Translation, DEFAULT_RESOLUTION,
};

#[test]
fn scroll_unit_codes() {
    assert_eq!(scroll_unit(0), Some(ScrollUnit::Pixel));
    assert_eq!(scroll_unit(1), Some(ScrollUnit::Line));
    assert_eq!(scroll_unit(2), None);
    assert_eq!(scroll_unit(u32::MAX), None);
}

#[test]
fn button_index_mapping() {
    assert_eq!(pointer_button(0), PointerButton::Left);
    assert_eq!(pointer_button(1), PointerButton::Middle);
    assert_eq!(pointer_button(2), PointerButton::Right);
    assert_eq!(pointer_button(3), PointerButton::Back);
    assert_eq!(pointer_button(4), PointerButton::Forward);
    assert_eq!(pointer_button(5), PointerButton::Other(5));
    assert_eq!(pointer_button(i16::MAX), PointerButton::Other(32767));
}

#[test]
fn button_index_below_zero_is_carried_as_its_sixteen_bits() {
    assert_eq!(pointer_button(-1), PointerButton::Other(65535));
    assert_eq!(pointer_button(i16::MIN), PointerButton::Other(32768));
}

#[test]
fn pressed_flag_mapping() {
    assert_eq!(button_state(true), ButtonState::Pressed);
    assert_eq!(button_state(false), ButtonState::Released);
}

#[test]
fn resize_sets_the_resolution_and_notifies() {
    let t = translate(Event::Resize { width: 800, height: 600 });
    assert_eq!(
        t,
        Translation {
            resolution: Some((800, 600)),
            notification: Notification::WindowResized { width: 800, height: 600 },
        }
    );
}

#[test]
fn presence_events_translate_to_presence_notifications() {
    assert_eq!(
        translate(Event::CursorEntered),
        Translation { resolution: None, notification: Notification::CursorEntered }
    );
    assert_eq!(
        translate(Event::CursorLeft),
        Translation { resolution: None, notification: Notification::CursorLeft }
    );
}

#[test]
fn cursor_and_motion_translate_with_their_values() {
    assert_eq!(
        translate(Event::CursorMoved { delta: Some((2, 1)), position: (12, 11) }).notification,
        Notification::CursorMoved { position: (12, 11), delta: Some((2, 1)) }
    );
    assert_eq!(
        translate(Event::CursorMoved { delta: None, position: (1, 2) }).notification,
        Notification::CursorMoved { position: (1, 2), delta: None }
    );
    assert_eq!(
        translate(Event::MouseMotion { delta: (-4, 9) }),
        Translation { resolution: None, notification: Notification::MouseMotion { delta: (-4, 9) } }
    );
}

#[test]
fn wheel_translates_with_its_unit() {
    let x = 3.25f64.to_bits();
    let y = (-1.0f64).to_bits();
    assert_eq!(
        translate(Event::MouseWheel { delta: (x, y), unit: 0 }).notification,
        Notification::MouseWheel { unit: ScrollUnit::Pixel, x, y }
    );
    assert_eq!(
        translate(Event::MouseWheel { delta: (x, y), unit: 1 }).notification,
        Notification::MouseWheel { unit: ScrollUnit::Line, x, y }
    );
}

#[test]
fn wheel_with_another_unit_code_is_not_taken() {
    assert!(can_translate(&Event::MouseWheel { delta: (0, 0), unit: 0 }));
    assert!(can_translate(&Event::MouseWheel { delta: (0, 0), unit: 1 }));
    assert!(!can_translate(&Event::MouseWheel { delta: (0, 0), unit: 2 }));
    assert!(can_translate(&Event::CursorLeft));
    assert!(can_translate(&Event::MouseButton { pressed: true, button: 9 }));
}

#[test]
fn button_events_translate_with_state_and_name() {
    assert_eq!(
        translate(Event::MouseButton { pressed: true, button: 0 }).notification,
        Notification::MouseButtonInput { state: ButtonState::Pressed, button: PointerButton::Left }
    );
    assert_eq!(
        translate(Event::MouseButton { pressed: false, button: 5 }).notification,
        Notification::MouseButtonInput {
            state: ButtonState::Released,
            button: PointerButton::Other(5),
        }
    );
}

#[test]
fn all_notifications_but_raw_motion_name_the_target() {
    assert!(!carries_target(&Notification::MouseMotion { delta: (1, 1) }));
    assert!(carries_target(&Notification::CursorEntered));
    assert!(carries_target(&Notification::CursorLeft));
    assert!(carries_target(&Notification::WindowResized { width: 1, height: 1 }));
    assert!(carries_target(&Notification::CursorMoved { position: (0, 0), delta: None }));
    assert!(carries_target(&Notification::MouseWheel { unit: ScrollUnit::Line, x: 0, y: 0 }));
    assert!(carries_target(&Notification::MouseButtonInput {
        state: ButtonState::Pressed,
        button: PointerButton::Left,
    }));
}

#[test]
fn primary_target_is_the_only_candidate() {
    assert_eq!(primary_target(&vec![42]), Some(42));
    assert_eq!(primary_target(&vec![]), None);
    assert_eq!(primary_target(&vec![1, 2]), None);
}

#[test]
fn init_waits_until_ready() {
    assert_eq!(after_readiness_query(false), InitStep::Wait);
    assert_eq!(after_readiness_query(true), InitStep::Finalize);
}

#[test]
fn tick_period_is_the_interval_in_milliseconds() {
    assert_eq!(tick_period_millis(16), 16);
    assert_eq!(tick_period_millis(25), 25);
    assert_eq!(tick_period_millis(0), 0);
    assert_eq!(tick_period_millis(u32::MAX as u128), u32::MAX);
    assert_eq!(tick_period_millis(1u128 << 32), 0);
    assert_eq!(tick_period_millis((1u128 << 32) + 7), 7);
}

#[test]
fn default_resolution() {
    assert_eq!(DEFAULT_RESOLUTION, (500, 500));
}
