use color_picker::app::App;
use color_picker::color::{ColorEntry, ColorValue};
use color_picker::events::{step, InputEvent};
use color_picker::hit::{resolve, RenderedBuffer};

fn rgb_catalog() -> Vec<ColorEntry> {
    vec![
        ColorEntry::new("Red", ColorValue::Red),
        ColorEntry::new("Green", ColorValue::Green),
        ColorEntry::new("Blue", ColorValue::Blue),
    ]
}

#[test]
fn resolve_finds_the_label_under_the_click() {
    let app = App::new();
    let mut buffer = RenderedBuffer::new(20, 10);
    buffer.set_label(5, 10, "Crimson");
    let hit = resolve(&buffer, &app, 5, 10);
    assert_eq!(hit, Some(("Crimson".to_string(), ColorValue::Rgb(220, 20, 60))));
}

#[test]
fn resolve_out_of_bounds_is_none() {
    let app = App::new();
    let buffer = RenderedBuffer::new(20, 10);
    assert_eq!(resolve(&buffer, &app, 10, 0), None);
    assert_eq!(resolve(&buffer, &app, 0, 20), None);
    assert_eq!(resolve(&buffer, &app, 99, 99), None);
}

#[test]
fn resolve_on_an_unlabeled_cell_is_none() {
    let app = App::new();
    let mut buffer = RenderedBuffer::new(20, 10);
    buffer.set_label(2, 3, "Crimson");
    assert_eq!(resolve(&buffer, &app, 1, 3), None);
    assert_eq!(resolve(&buffer, &app, 2, 4), None);
}

#[test]
fn resolve_ignores_a_label_hidden_by_the_filter() {
    let mut app = App::with_catalog(rgb_catalog());
    app.handle_input('b');
    let mut buffer = RenderedBuffer::new(10, 4);
    buffer.set_label(0, 0, "Red");
    buffer.set_label(1, 0, "Blue");
    // "Red" is rendered stale; only "Blue" is in the visible set.
    assert_eq!(resolve(&buffer, &app, 0, 0), None);
    assert_eq!(
        resolve(&buffer, &app, 1, 0),
        Some(("Blue".to_string(), ColorValue::Blue))
    );
}

#[test]
fn click_on_a_swatch_selects_it() {
    let mut app = App::with_catalog(rgb_catalog());
    app.handle_input('r');
    app.handle_input('e');
    let visible = app.visible_entries();
    let names: Vec<&str> = visible.iter().map(|e| e.name.as_str()).collect();
    assert_eq!(names, vec!["Red", "Green"]);

    let mut buffer = RenderedBuffer::new(30, 6);
    buffer.set_label(0, 4, "Red");
    buffer.set_label(1, 4, "Green");
    let quit = step(&mut app, &buffer, InputEvent::LeftClick(0, 4));
    assert!(!quit);
    assert_eq!(app.selected, Some(("Red".to_string(), ColorValue::Red)));
}

#[test]
fn step_escape_quits_and_changes_nothing() {
    let mut app = App::with_catalog(rgb_catalog());
    app.handle_input('x');
    let buffer = RenderedBuffer::new(5, 5);
    let quit = step(&mut app, &buffer, InputEvent::Escape);
    assert!(quit);
    assert_eq!(app.filter, vec!['x']);
    assert!(app.selected.is_none());
}

#[test]
fn step_edits_the_filter() {
    let mut app = App::with_catalog(rgb_catalog());
    let buffer = RenderedBuffer::new(5, 5);
    assert!(!step(&mut app, &buffer, InputEvent::Char('g')));
    assert!(!step(&mut app, &buffer, InputEvent::Char('r')));
    assert_eq!(app.filter, vec!['g', 'r']);
    assert!(!step(&mut app, &buffer, InputEvent::Backspace));
    assert_eq!(app.filter, vec!['g']);
}

#[test]
fn step_ignores_other_events_and_missed_clicks() {
    let mut app = App::with_catalog(rgb_catalog());
    let buffer = RenderedBuffer::new(5, 5);
    assert!(!step(&mut app, &buffer, InputEvent::Other));
    assert!(!step(&mut app, &buffer, InputEvent::LeftClick(4, 4)));
    assert!(app.selected.is_none());
    assert!(app.filter.is_empty());
}
