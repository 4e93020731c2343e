use term_input::event::{Event, KeyCode, KeyEvent, MouseButton, MouseEvent, MouseEventKind, KeyModifiers};
use term_input::filter::Filter;
use term_input::input::{read, try_read, Input};
use term_input::selector::Selector;
use term_input::signal::{Shape, Signal};

fn key(c: char) -> Signal {
    Signal::DiscreteEvent(Event::Key(KeyEvent::from(KeyCode::Char(c))))
}

fn resize(columns: u16, rows: u16) -> Signal {
    Signal::DiscreteEvent(Event::Resize(columns, rows))
}

fn paste(text: &str) -> Signal {
    Signal::PasteChunk(text.to_string())
}

fn click(column: u16, row: u16) -> Signal {
    Signal::DiscreteEvent(Event::Mouse(MouseEvent {
        kind: MouseEventKind::Down(MouseButton::Left),
        column,
        row,
        modifiers: KeyModifiers::none(),
    }))
}

/// A selector that holds `signals`, oldest first.
fn holding(signals: Vec<Signal>) -> Selector {
    let mut selector = Selector::new();
    for signal in signals {
        selector.enqueue(signal);
    }
    selector
}

fn drain(selector: &mut Selector) -> Vec<Input> {
    let mut out = Vec::new();
    while let Some(input) = try_read(selector) {
        out.push(input);
    }
    out
}

#[test]
fn new_selector_is_empty() {
    let mut selector = Selector::new();
    assert!(selector.is_empty());
    assert_eq!(selector.len(), 0);
    assert!(!selector.has_match(Filter::Any));
    assert_eq!(selector.next_matching(Filter::Any), None);
    assert_eq!(selector.len(), 0);
}

#[test]
fn enqueue_keeps_arrival_order() {
    let mut selector = Selector::new();
    selector.enqueue(key('a'));
    selector.enqueue(paste("p"));
    selector.enqueue(key('b'));
    assert_eq!(selector.len(), 3);
    assert!(!selector.is_empty());
    assert_eq!(selector.next_matching(Filter::Any), Some(key('a')));
    assert_eq!(selector.next_matching(Filter::Any), Some(paste("p")));
    assert_eq!(selector.next_matching(Filter::Any), Some(key('b')));
    assert_eq!(selector.next_matching(Filter::Any), None);
}

#[test]
fn narrow_query_takes_first_resize_and_leaves_the_rest_in_order() {
    let mut selector = holding(vec![resize(80, 24), key('c'), resize(81, 24)]);
    let taken = selector.next_matching(Filter::Only(Shape::Resize));
    assert_eq!(taken, Some(resize(80, 24)));
    assert_eq!(selector.len(), 2);
    assert_eq!(try_read(&mut selector), Some(Input::Event(Event::Key(KeyEvent::from(KeyCode::Char('c'))))));
    assert_eq!(try_read(&mut selector), Some(Input::Event(Event::Resize(81, 24))));
    assert_eq!(try_read(&mut selector), None);
}

#[test]
fn narrow_query_skips_signals_at_the_front() {
    let mut selector = holding(vec![key('a'), click(3, 4), resize(100, 30), key('b'), resize(101, 30)]);
    let taken = selector.next_matching(Filter::Only(Shape::Resize));
    assert_eq!(taken, Some(resize(100, 30)));
    assert_eq!(
        drain(&mut selector),
        vec![
            Input::Event(Event::Key(KeyEvent::from(KeyCode::Char('a')))),
            Input::Event(Event::Mouse(MouseEvent {
                kind: MouseEventKind::Down(MouseButton::Left),
                column: 3,
                row: 4,
                modifiers: KeyModifiers::none(),
            })),
            Input::Event(Event::Key(KeyEvent::from(KeyCode::Char('b')))),
            Input::Event(Event::Resize(101, 30)),
        ]
    );
}

#[test]
fn query_without_a_match_changes_nothing() {
    let mut selector = holding(vec![key('a'), resize(80, 24)]);
    assert!(!selector.has_match(Filter::Only(Shape::Paste)));
    assert_eq!(selector.next_matching(Filter::Only(Shape::Paste)), None);
    assert_eq!(selector.len(), 2);
    assert_eq!(
        drain(&mut selector),
        vec![
            Input::Event(Event::Key(KeyEvent::from(KeyCode::Char('a')))),
            Input::Event(Event::Resize(80, 24)),
        ]
    );
}

#[test]
fn has_match_takes_nothing() {
    let selector = holding(vec![key('a'), paste("text")]);
    assert!(selector.has_match(Filter::Any));
    assert!(selector.has_match(Filter::Only(Shape::Key)));
    assert!(selector.has_match(Filter::Only(Shape::Paste)));
    assert!(!selector.has_match(Filter::Only(Shape::Resize)));
    assert!(!selector.has_match(Filter::Only(Shape::Mouse)));
    assert_eq!(selector.len(), 2);
}

#[test]
fn offer_returns_an_accepted_arrival_at_once() {
    let mut selector = holding(vec![key('a')]);
    let out: Result<Option<Signal>, ()> = selector.offer(Filter::Only(Shape::Resize), Ok(resize(80, 24)));
    assert_eq!(out, Ok(Some(resize(80, 24))));
    assert_eq!(selector.len(), 1);
    assert_eq!(drain(&mut selector), vec![Input::Event(Event::Key(KeyEvent::from(KeyCode::Char('a'))))]);
}

#[test]
fn offer_queues_an_arrival_that_is_not_accepted() {
    let mut selector = holding(vec![key('a')]);
    let out: Result<Option<Signal>, ()> = selector.offer(Filter::Only(Shape::Resize), Ok(key('b')));
    assert_eq!(out, Ok(None));
    let out: Result<Option<Signal>, ()> = selector.offer(Filter::Only(Shape::Resize), Ok(paste("p")));
    assert_eq!(out, Ok(None));
    assert_eq!(selector.len(), 3);
    assert_eq!(
        drain(&mut selector),
        vec![
            Input::Event(Event::Key(KeyEvent::from(KeyCode::Char('a')))),
            Input::Event(Event::Key(KeyEvent::from(KeyCode::Char('b')))),
            Input::Paste("p".to_string()),
        ]
    );
}

#[test]
fn offer_prefers_an_older_match_to_the_arrival() {
    let mut selector = holding(vec![key('a'), resize(80, 24)]);
    let out: Result<Option<Signal>, ()> = selector.offer(Filter::Only(Shape::Resize), Ok(resize(81, 24)));
    assert_eq!(out, Ok(Some(resize(80, 24))));
    assert_eq!(
        drain(&mut selector),
        vec![
            Input::Event(Event::Key(KeyEvent::from(KeyCode::Char('a')))),
            Input::Event(Event::Resize(81, 24)),
        ]
    );
}

#[test]
fn offer_passes_a_decoder_failure_on_and_keeps_the_queue() {
    let mut selector = holding(vec![key('a'), resize(80, 24)]);
    let out: Result<Option<Signal>, String> = selector.offer(Filter::Any, Err("device gone".to_string()));
    assert_eq!(out, Err("device gone".to_string()));
    assert_eq!(selector.len(), 2);
    // The failure was for that call only: the next one goes through.
    let out: Result<Option<Signal>, String> = selector.offer(Filter::Only(Shape::Paste), Ok(paste("x")));
    assert_eq!(out, Ok(Some(paste("x"))));
    assert_eq!(
        drain(&mut selector),
        vec![
            Input::Event(Event::Key(KeyEvent::from(KeyCode::Char('a')))),
            Input::Event(Event::Resize(80, 24)),
        ]
    );
}

#[test]
fn signals_of_one_shape_leave_in_arrival_order_under_mixed_filters() {
    let mut selector = holding(vec![
        key('a'),
        resize(1, 1),
        key('b'),
        paste("p"),
        resize(2, 2),
        key('c'),
        resize(3, 3),
    ]);
    let mut keys = Vec::new();
    let mut resizes = Vec::new();
    let mut others = Vec::new();
    let filters = [
        Filter::Only(Shape::Resize),
        Filter::Any,
        Filter::Only(Shape::Key),
        Filter::Only(Shape::Resize),
        Filter::Any,
        Filter::Any,
        Filter::Any,
    ];
    for filter in filters {
        let taken = selector.next_matching(filter).unwrap();
        match taken.shape() {
            Shape::Key => keys.push(taken),
            Shape::Resize => resizes.push(taken),
            _ => others.push(taken),
        }
    }
    assert_eq!(keys, vec![key('a'), key('b'), key('c')]);
    assert_eq!(resizes, vec![resize(1, 1), resize(2, 2), resize(3, 3)]);
    assert_eq!(others, vec![paste("p")]);
    assert!(selector.is_empty());
}

#[test]
fn a_signal_is_handed_out_once() {
    let mut selector = holding(vec![resize(80, 24)]);
    assert_eq!(selector.next_matching(Filter::Only(Shape::Resize)), Some(resize(80, 24)));
    assert_eq!(selector.next_matching(Filter::Only(Shape::Resize)), None);
    assert_eq!(selector.next_matching(Filter::Any), None);
    let out: Result<Input, ()> = read(&mut selector, Ok(key('z')));
    assert_eq!(out, Ok(Input::Event(Event::Key(KeyEvent::from(KeyCode::Char('z'))))));
}
