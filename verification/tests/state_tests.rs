use color_picker::app::App;
use color_picker::color::{ColorEntry, ColorValue};

fn rgb_catalog() -> Vec<ColorEntry> {
    vec![
        ColorEntry::new("Red", ColorValue::Red),
        ColorEntry::new("Green", ColorValue::Green),
        ColorEntry::new("Blue", ColorValue::Blue),
    ]
}

#[test]
fn empty_filter_shows_all_in_order() {
    let app = App::with_catalog(rgb_catalog());
    let visible = app.visible_entries();
    let names: Vec<&str> = visible.iter().map(|e| e.name.as_str()).collect();
    assert_eq!(names, vec!["Red", "Green", "Blue"]);
}

#[test]
fn backspace_on_empty_filter_changes_nothing() {
    let mut app = App::with_catalog(rgb_catalog());
    app.delete_input();
    assert!(app.filter.is_empty());
    assert!(app.selected.is_none());
    let visible = app.visible_entries();
    assert_eq!(visible.len(), 3);
}

#[test]
fn backspace_on_empty_filter_is_idempotent() {
    let mut app = App::with_catalog(rgb_catalog());
    app.delete_input();
    app.delete_input();
    assert!(app.filter.is_empty());
    assert!(app.selected.is_none());
}

#[test]
fn typing_narrows_visible_entries() {
    let mut app = App::with_catalog(rgb_catalog());
    app.handle_input('r');
    app.handle_input('e');
    let visible = app.visible_entries();
    let names: Vec<&str> = visible.iter().map(|e| e.name.as_str()).collect();
    // "re" occurs case-insensitively in "Red" and in "Green", not in "Blue".
    assert_eq!(names, vec!["Red", "Green"]);
}

#[test]
fn filter_match_is_case_insensitive() {
    let mut app = App::with_catalog(rgb_catalog());
    app.handle_input('R');
    app.handle_input('E');
    app.handle_input('D');
    let visible = app.visible_entries();
    assert_eq!(visible.len(), 1);
    assert_eq!(visible[0].name, "Red");
    assert_eq!(visible[0].value, ColorValue::Red);
}

#[test]
fn filter_with_no_match_hides_everything() {
    let mut app = App::with_catalog(rgb_catalog());
    app.handle_input('z');
    let visible = app.visible_entries();
    assert!(visible.is_empty());
}

#[test]
fn typing_then_deleting_restores_the_filter() {
    let mut app = App::with_catalog(rgb_catalog());
    app.handle_input('A');
    app.handle_input('b');
    app.handle_input('C');
    app.delete_input();
    app.delete_input();
    app.delete_input();
    assert!(app.filter.is_empty());
    let visible = app.visible_entries();
    assert_eq!(visible.len(), 3);
}

#[test]
fn select_color_overwrites_any_prior_selection() {
    let mut app = App::with_catalog(rgb_catalog());
    app.select_color("Red", ColorValue::Red);
    assert_eq!(app.selected, Some(("Red".to_string(), ColorValue::Red)));
    app.select_color("Blue", ColorValue::Blue);
    assert_eq!(app.selected, Some(("Blue".to_string(), ColorValue::Blue)));
}

#[test]
fn selection_survives_further_typing() {
    let mut app = App::with_catalog(rgb_catalog());
    app.select_color("Green", ColorValue::Green);
    app.handle_input('b');
    assert_eq!(app.selected, Some(("Green".to_string(), ColorValue::Green)));
}

#[test]
fn render_plan_mirrors_the_state() {
    let mut app = App::with_catalog(rgb_catalog());
    app.handle_input('b');
    app.select_color("Red", ColorValue::Red);
    let plan = app.render_plan();
    assert_eq!(plan.filter, vec!['b']);
    assert_eq!(plan.selected, Some(("Red".to_string(), ColorValue::Red)));
    assert_eq!(plan.swatches.len(), 1);
    assert_eq!(plan.swatches[0].name, "Blue");
    assert_eq!(plan.swatches[0].value, ColorValue::Blue);
}

#[test]
fn default_catalog_is_installed_by_new() {
    let app = App::new();
    let visible = app.visible_entries();
    assert_eq!(visible.len(), 10);
    assert_eq!(visible[0].name, "Black");
    assert_eq!(visible[8].name, "Crimson");
    assert_eq!(visible[8].value, ColorValue::Rgb(220, 20, 60));
    assert_eq!(visible[9].name, "Teal");
}
