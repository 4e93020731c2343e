use term_input::event::{Event, KeyCode, KeyEvent, KeyModifiers, MouseButton, MouseEvent, MouseEventKind};
use term_input::filter::Filter;
use term_input::signal::{Shape, Signal};

fn one_of_each() -> Vec<(Signal, Shape)> {
    vec![
        (Signal::DiscreteEvent(Event::Key(KeyEvent::from(KeyCode::Enter))), Shape::Key),
        (
            Signal::DiscreteEvent(Event::Mouse(MouseEvent {
                kind: MouseEventKind::Up(MouseButton::Right),
                column: 1,
                row: 2,
                modifiers: KeyModifiers::none(),
            })),
            Shape::Mouse,
        ),
        (Signal::DiscreteEvent(Event::FocusGained), Shape::FocusGained),
        (Signal::DiscreteEvent(Event::FocusLost), Shape::FocusLost),
        (Signal::DiscreteEvent(Event::Resize(80, 24)), Shape::Resize),
        (Signal::PasteChunk("text".to_string()), Shape::Paste),
    ]
}

#[test]
fn key_event_from_key_code_has_no_modifiers() {
    let key = KeyEvent::from(KeyCode::Char('c'));
    assert_eq!(key.code, KeyCode::Char('c'));
    assert_eq!(key.modifiers, KeyModifiers { shift: false, control: false, alt: false });
    assert_eq!(key, KeyEvent::new(KeyCode::Char('c'), KeyModifiers::none()));
    let key: KeyEvent = KeyCode::Esc.into();
    assert_eq!(key, KeyEvent { code: KeyCode::Esc, modifiers: KeyModifiers::none() });
}

#[test]
fn key_event_new_keeps_code_and_modifiers() {
    let modifiers = KeyModifiers { shift: true, control: false, alt: true };
    let key = KeyEvent::new(KeyCode::F(5), modifiers);
    assert_eq!(key.code, KeyCode::F(5));
    assert_eq!(key.modifiers, modifiers);
}

#[test]
fn each_signal_has_its_shape() {
    for (signal, shape) in one_of_each() {
        assert_eq!(signal.shape(), shape);
    }
}

#[test]
fn accept_all_filter_accepts_every_signal() {
    for (signal, _) in one_of_each() {
        assert!(Filter::Any.accepts(&signal));
    }
}

#[test]
fn narrow_filter_accepts_its_shape_only() {
    for (_, wanted) in one_of_each() {
        for (signal, shape) in one_of_each() {
            assert_eq!(Filter::Only(wanted).accepts(&signal), shape == wanted);
        }
    }
}

#[test]
fn filter_gives_the_same_answer_each_time() {
    let signal = Signal::DiscreteEvent(Event::Resize(80, 24));
    let filter = Filter::Only(Shape::Resize);
    assert!(filter.accepts(&signal));
    assert!(filter.accepts(&signal));
    assert_eq!(signal, Signal::DiscreteEvent(Event::Resize(80, 24)));
}

#[test]
fn signal_clone_has_the_same_content() {
    for (signal, _) in one_of_each() {
        assert_eq!(signal.clone(), signal);
    }
}
