use region_picker::modes::{Mode, TransmissionStatus};
use region_picker::overlay::Shape;
use region_picker::selection::{handle_event, select_region, Button, InputEvent, State};

fn press(b: Button) -> InputEvent {
    InputEvent::ButtonPress(b)
}

#[test]
fn other_buttons_and_moves_change_nothing() {
    let mut s = State::new();
    let mut p = (0, 0);
    let events = vec![
        InputEvent::MouseMove(10, 10),
        press(Button::Right),
        InputEvent::Other,
        press(Button::Middle),
        InputEvent::MouseMove(500, 600),
        press(Button::Unknown(7)),
    ];
    for e in events {
        let r = handle_event(&mut s, &mut p, e);
        assert!(!r.signal);
        assert!(r.draws.is_empty());
    }
    assert_eq!(s.click, 0);
    assert!(!s.should_exit);
    assert_eq!(p, (500, 600));
}

#[test]
fn one_press_records_the_clamped_first_corner() {
    let mut s = State::new();
    let mut p = (0, 0);
    handle_event(&mut s, &mut p, InputEvent::MouseMove(-50, 2000));
    let r = handle_event(&mut s, &mut p, press(Button::Left));
    assert_eq!(s.click, 1);
    assert_eq!(s.p1, (0, 1080));
    assert!(!s.should_exit);
    assert!(!r.signal);
    assert_eq!(r.draws, vec![Shape::Cross((0, 1080))]);
}

#[test]
fn two_presses_record_both_corners() {
    let mut s = State::new();
    let mut p = (0, 0);
    handle_event(&mut s, &mut p, InputEvent::MouseMove(100, 100));
    handle_event(&mut s, &mut p, press(Button::Left));
    handle_event(&mut s, &mut p, InputEvent::MouseMove(3000, -10));
    let r = handle_event(&mut s, &mut p, press(Button::Left));
    assert_eq!(s.click, 2);
    assert_eq!(s.p1, (100, 100));
    assert_eq!(s.p2, (1920, 0));
    assert!(!s.should_exit);
    assert_eq!(
        r.draws,
        vec![
            Shape::Cross((100, 100)),
            Shape::Cross((100, 100)),
            Shape::Square((100, 100), (1920, 0)),
            Shape::Cross((1920, 0)),
        ]
    );
}

#[test]
fn every_event_redraws_the_current_figure() {
    let mut s = State::new();
    let mut p = (0, 0);
    handle_event(&mut s, &mut p, InputEvent::MouseMove(40, 50));
    handle_event(&mut s, &mut p, press(Button::Left));
    let r = handle_event(&mut s, &mut p, InputEvent::MouseMove(60, 70));
    assert_eq!(r.draws, vec![Shape::Cross((40, 50))]);
}

#[test]
fn third_press_completes_once_and_freezes() {
    let mut s = State::new();
    let mut p = (0, 0);
    handle_event(&mut s, &mut p, InputEvent::MouseMove(100, 100));
    handle_event(&mut s, &mut p, press(Button::Left));
    handle_event(&mut s, &mut p, InputEvent::MouseMove(300, 200));
    handle_event(&mut s, &mut p, press(Button::Left));
    handle_event(&mut s, &mut p, InputEvent::MouseMove(5, 5));
    let r = handle_event(&mut s, &mut p, press(Button::Left));
    assert!(r.signal);
    assert!(s.should_exit);
    assert_eq!(s.click, 3);
    let mut signals = 1;
    for e in [press(Button::Left), InputEvent::MouseMove(9, 9), press(Button::Left)] {
        let r = handle_event(&mut s, &mut p, e);
        assert!(r.draws.is_empty());
        if r.signal {
            signals += 1;
        }
    }
    assert_eq!(signals, 1);
    assert_eq!(s.click, 3);
    assert_eq!(s.p1, (100, 100));
    assert_eq!(s.p2, (300, 200));
}

#[test]
fn select_region_end_to_end() {
    let events = vec![
        InputEvent::MouseMove(100, 100),
        press(Button::Left),
        InputEvent::MouseMove(300, 200),
        press(Button::Right),
        press(Button::Left),
        InputEvent::MouseMove(1234, 567),
        press(Button::Left),
        InputEvent::MouseMove(1, 1),
        press(Button::Left),
    ];
    assert_eq!(select_region(&events), Some(((100, 100), (300, 200))));
}

#[test]
fn select_region_incomplete_stream() {
    let events = vec![
        InputEvent::MouseMove(100, 100),
        press(Button::Left),
        press(Button::Left),
    ];
    assert_eq!(select_region(&events), None);
    assert_eq!(select_region(&vec![]), None);
}

#[test]
fn select_region_without_moves_uses_the_origin() {
    let events = vec![press(Button::Left), press(Button::Left), press(Button::Left)];
    assert_eq!(select_region(&events), Some(((0, 0), (0, 0))));
}

#[test]
fn defaults_of_the_modes() {
    assert_eq!(Mode::default(), Mode::Caster);
    assert_eq!(TransmissionStatus::default(), TransmissionStatus::Idle);
}
