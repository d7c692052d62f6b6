use pc_remote::keys::Key;
use pc_remote::pccontroller::{
    host_button, pace, Button, InputEvent, KeyRequest, MouseRequest, RequestError, Step,
    PACING_DELAY_MS,
};
use pc_remote::scale::HostDisplayMetrics;

fn pointer(id: u8) -> MouseRequest {
    MouseRequest {
        id,
        x: Some(50),
        y: Some(50),
        delta_x: Some(3),
        delta_y: Some(-4),
        height: Some(500),
        button: Some(0),
    }
}

fn pause() -> Step {
    Step::Pause { millis: 20 }
}

#[test]
fn a_press_moves_first_and_then_presses() {
    let request = MouseRequest {
        id: 0,
        x: Some(50),
        y: Some(50),
        delta_x: None,
        delta_y: None,
        height: Some(500),
        button: Some(0),
    };
    let steps = request.process(&HostDisplayMetrics::new(1000));
    assert_eq!(
        steps,
        Ok(vec![
            Step::Emit(InputEvent::MouseMove { x: 100, y: 100 }),
            pause(),
            Step::Emit(InputEvent::ButtonPress(Button::Left)),
            pause(),
        ])
    );
}

#[test]
fn a_release_moves_first_and_then_releases() {
    let mut request = pointer(1);
    request.button = Some(2);
    assert_eq!(
        request.process(&HostDisplayMetrics::new(1000)),
        Ok(vec![
            Step::Emit(InputEvent::MouseMove { x: 100, y: 100 }),
            pause(),
            Step::Emit(InputEvent::ButtonRelease(Button::Right)),
            pause(),
        ])
    );
}

#[test]
fn a_move_only_moves() {
    let mut request = pointer(2);
    request.button = None;
    request.delta_x = None;
    request.delta_y = None;
    assert_eq!(
        request.process(&HostDisplayMetrics::new(250)),
        Ok(vec![Step::Emit(InputEvent::MouseMove { x: 25, y: 25 }), pause()])
    );
}

#[test]
fn a_wheel_command_moves_first_and_turns_the_deltas() {
    let mut request = pointer(3);
    request.button = None;
    assert_eq!(
        request.process(&HostDisplayMetrics::new(500)),
        Ok(vec![
            Step::Emit(InputEvent::MouseMove { x: 50, y: 50 }),
            pause(),
            Step::Emit(InputEvent::Wheel { delta_x: -3, delta_y: 4 }),
            pause(),
        ])
    );
}

#[test]
fn an_unknown_pointer_id_is_refused() {
    for id in [4u8, 5, 100, 255] {
        assert_eq!(
            pointer(id).process(&HostDisplayMetrics::new(1000)),
            Err(RequestError::UnknownId)
        );
    }
    // Also where nothing else is present.
    let bare = MouseRequest {
        id: 9,
        x: None,
        y: None,
        delta_x: None,
        delta_y: None,
        height: None,
        button: None,
    };
    assert_eq!(bare.process(&HostDisplayMetrics::new(1000)), Err(RequestError::UnknownId));
}

#[test]
fn a_command_without_position_is_refused() {
    let metrics = HostDisplayMetrics::new(1000);
    for id in 0..4u8 {
        let mut request = pointer(id);
        request.x = None;
        assert_eq!(request.process(&metrics), Err(RequestError::MissingPosition));
        let mut request = pointer(id);
        request.y = None;
        assert_eq!(request.process(&metrics), Err(RequestError::MissingPosition));
    }
}

#[test]
fn a_command_without_height_is_refused() {
    let metrics = HostDisplayMetrics::new(1000);
    let mut request = pointer(2);
    request.height = None;
    assert_eq!(request.process(&metrics), Err(RequestError::MissingHeight));
    assert_eq!(request.mouse_move(&metrics), Err(RequestError::MissingHeight));
}

#[test]
fn a_command_with_height_zero_is_refused() {
    let metrics = HostDisplayMetrics::new(1000);
    let mut request = pointer(0);
    request.height = Some(0);
    assert_eq!(request.process(&metrics), Err(RequestError::ZeroHeight));
}

#[test]
fn a_press_without_button_is_refused() {
    let metrics = HostDisplayMetrics::new(1000);
    for id in [0u8, 1] {
        let mut request = pointer(id);
        request.button = None;
        assert_eq!(request.process(&metrics), Err(RequestError::MissingButton));
    }
    let mut request = pointer(0);
    request.button = None;
    assert_eq!(request.mouse_down(), Err(RequestError::MissingButton));
    assert_eq!(request.mouse_up(), Err(RequestError::MissingButton));
}

#[test]
fn a_wheel_command_without_delta_is_refused() {
    let metrics = HostDisplayMetrics::new(1000);
    let mut request = pointer(3);
    request.delta_x = None;
    assert_eq!(request.process(&metrics), Err(RequestError::MissingDelta));
    let mut request = pointer(3);
    request.delta_y = None;
    assert_eq!(request.process(&metrics), Err(RequestError::MissingDelta));
}

#[test]
fn a_delta_without_opposite_is_refused() {
    let metrics = HostDisplayMetrics::new(1000);
    let mut request = pointer(3);
    request.delta_x = Some(i64::MIN);
    assert_eq!(request.process(&metrics), Err(RequestError::DeltaOutOfRange));
    let mut request = pointer(3);
    request.delta_y = Some(i64::MIN);
    assert_eq!(request.mouse_wheel(), Err(RequestError::DeltaOutOfRange));
    let mut request = pointer(3);
    request.delta_x = Some(i64::MAX);
    request.delta_y = Some(i64::MIN + 1);
    assert_eq!(
        request.mouse_wheel(),
        Ok(InputEvent::Wheel { delta_x: -i64::MAX, delta_y: i64::MAX })
    );
}

#[test]
fn the_position_is_asked_for_before_the_button() {
    let metrics = HostDisplayMetrics::new(1000);
    let mut request = pointer(0);
    request.x = None;
    request.button = None;
    assert_eq!(request.process(&metrics), Err(RequestError::MissingPosition));
    let mut request = pointer(3);
    request.height = Some(0);
    request.delta_x = None;
    assert_eq!(request.process(&metrics), Err(RequestError::ZeroHeight));
}

#[test]
fn fields_that_a_command_does_not_need_may_be_absent() {
    let metrics = HostDisplayMetrics::new(1000);
    let mut press = pointer(0);
    press.delta_x = None;
    press.delta_y = None;
    assert!(press.process(&metrics).is_ok());
    let mut wheel = pointer(3);
    wheel.button = None;
    assert!(wheel.process(&metrics).is_ok());
}

#[test]
fn buttons_by_number() {
    assert_eq!(host_button(0), Button::Left);
    assert_eq!(host_button(1), Button::Middle);
    assert_eq!(host_button(2), Button::Right);
    assert_eq!(host_button(3), Button::Unknown(0));
    assert_eq!(host_button(255), Button::Unknown(0));
}

#[test]
fn a_key_press_and_a_key_release() {
    let press = KeyRequest { id: 0, code: String::from("keyq") };
    assert_eq!(
        press.process(),
        Ok(vec![Step::Emit(InputEvent::KeyPress(Key::KeyQ)), pause()])
    );
    let release = KeyRequest { id: 1, code: String::from("arrowleft") };
    assert_eq!(
        release.process(),
        Ok(vec![Step::Emit(InputEvent::KeyRelease(Key::LeftArrow)), pause()])
    );
}

#[test]
fn an_unknown_code_is_replayed_as_the_unknown_key() {
    let press = KeyRequest { id: 0, code: String::from("hyper") };
    assert_eq!(press.key_down(), InputEvent::KeyPress(Key::Unknown(0)));
    assert_eq!(press.key_up(), InputEvent::KeyRelease(Key::Unknown(0)));
    assert_eq!(
        press.process(),
        Ok(vec![Step::Emit(InputEvent::KeyPress(Key::Unknown(0))), pause()])
    );
}

#[test]
fn an_unknown_key_id_is_refused() {
    for id in [2u8, 3, 255] {
        let request = KeyRequest { id, code: String::from("keyq") };
        assert_eq!(request.process(), Err(RequestError::UnknownId));
    }
}

#[test]
fn every_event_is_followed_by_the_pacing_delay() {
    assert_eq!(PACING_DELAY_MS, 20);
    let events = vec![
        InputEvent::KeyPress(Key::KeyA),
        InputEvent::MouseMove { x: 1, y: 2 },
        InputEvent::ButtonRelease(Button::Middle),
    ];
    let steps = pace(&events);
    assert_eq!(steps.len(), 6);
    for (i, event) in events.iter().enumerate() {
        assert_eq!(steps[2 * i], Step::Emit(*event));
        assert_eq!(steps[2 * i + 1], Step::Pause { millis: PACING_DELAY_MS });
    }
    assert_eq!(pace(&Vec::new()), Vec::new());
}
