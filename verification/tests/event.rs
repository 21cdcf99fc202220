use blockfall::event::{Event, KeyCode, Modifiers, RawEvent};

fn key(code: KeyCode, modifiers: Modifiers) -> RawEvent {
    RawEvent::Key(code, modifiers)
}

#[test]
fn every_binding_translates_to_its_command() {
    assert!(matches!(
        Event::from_raw(key(KeyCode::Char('q'), Modifiers::Empty)),
        Event::Quit
    ));
    assert!(matches!(
        Event::from_raw(key(KeyCode::Char('c'), Modifiers::Control)),
        Event::Quit
    ));
    assert!(matches!(
        Event::from_raw(key(KeyCode::Char('p'), Modifiers::Empty)),
        Event::Toggle
    ));
    assert!(matches!(
        Event::from_raw(key(KeyCode::Up, Modifiers::Empty)),
        Event::ClockRotate
    ));
    assert!(matches!(
        Event::from_raw(key(KeyCode::Char('z'), Modifiers::Empty)),
        Event::ClockRotate
    ));
    assert!(matches!(
        Event::from_raw(key(KeyCode::Char('x'), Modifiers::Empty)),
        Event::InverseRotate
    ));
    assert!(matches!(
        Event::from_raw(key(KeyCode::Down, Modifiers::Empty)),
        Event::Drop
    ));
    assert!(matches!(
        Event::from_raw(key(KeyCode::Left, Modifiers::Empty)),
        Event::Left
    ));
    assert!(matches!(
        Event::from_raw(key(KeyCode::Right, Modifiers::Empty)),
        Event::Right
    ));
    assert!(matches!(
        Event::from_raw(key(KeyCode::Char(' '), Modifiers::Empty)),
        Event::HardDrop
    ));
    assert!(matches!(Event::from_raw(RawEvent::Resize), Event::Resize));
}

#[test]
fn unbound_input_is_unknown() {
    assert!(matches!(
        Event::from_raw(key(KeyCode::Char('a'), Modifiers::Empty)),
        Event::Unknow
    ));
    // The right key with the wrong modifier does not count.
    assert!(matches!(
        Event::from_raw(key(KeyCode::Char('q'), Modifiers::Control)),
        Event::Unknow
    ));
    assert!(matches!(
        Event::from_raw(key(KeyCode::Char('c'), Modifiers::Empty)),
        Event::Unknow
    ));
    assert!(matches!(
        Event::from_raw(key(KeyCode::Up, Modifiers::Other)),
        Event::Unknow
    ));
    assert!(matches!(
        Event::from_raw(key(KeyCode::Other, Modifiers::Empty)),
        Event::Unknow
    ));
    assert!(matches!(Event::from_raw(RawEvent::Other), Event::Unknow));
}
